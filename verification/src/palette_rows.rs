//! The rows that the palette lists in each of its modes.

use vstd::prelude::*;
use vstd::string::*;
use crate::copy::CopyKind;
use crate::editor::Selection;
use crate::hexview::{format_offset, format_range};
#[allow(unused_imports)]
use crate::hexview::{offset_text, range_text};
use crate::labels::{label_arg, label_args2, label_args3, Icon, Label, Shortcut};
#[allow(unused_imports)]
use crate::labels::LabelView;
use crate::palette::{
    put, Action, ColumnScope, Entry, Mode, PaletteCommand, PluginCascade, PluginCommand,
    PluginPrompt,
};
#[allow(unused_imports)]
use crate::palette::{rows_view, ActionView, EntryView};
use crate::settings::{OffsetBase, RecentFile, MAX_COLUMNS, MIN_COLUMNS};
#[allow(unused_imports)]
use crate::settings::columns_allowed;
use crate::tabs::FileId;
use crate::text::{dec_string, join2, push_hex, text_eq, trim};
#[allow(unused_imports)]
use crate::text::{dec, hex, trimmed};

verus! {

/// The label of a panel's state after a toggle: what picking the row does.
pub open spec fn panel_subtitle(visible: bool) -> LabelView {
    if visible {
        LabelView::Key("palette-subtitle-hide"@)
    } else {
        LabelView::Key("palette-subtitle-show"@)
    }
}

fn panel_label(visible: bool) -> (r: Label)
    ensures
        r@ == panel_subtitle(visible),
{
    if visible {
        Label::Key("palette-subtitle-hide")
    } else {
        Label::Key("palette-subtitle-show")
    }
}

/// Which panels show.
#[derive(Clone, Copy, Debug, PartialEq, Eq, Structural)]
pub struct PanelFlags {
    pub console: bool,
    pub inspector: bool,
    pub plugins: bool,
    pub workspace_tree: bool,
    pub tool_panel: bool,
}

/// What can be done to the active file.
#[derive(Clone, Copy, Debug, PartialEq, Eq, Structural)]
pub struct HistoryContext {
    pub can_undo: bool,
    pub can_redo: bool,
    /// Whether the active file accepts edits.
    pub can_paste: bool,
    /// Whether there is an active file.
    pub has_active_file: bool,
}

/// Caret, selection and length of the active file.
#[derive(Clone, Copy, Debug, PartialEq, Eq, Structural)]
pub struct OffsetContext {
    pub cursor: u64,
    pub source_len: u64,
    /// Whether there is an active file.
    pub available: bool,
    pub selection: Option<Selection>,
    /// Address of the file's first byte.
    pub virtual_base: Option<u64>,
}

/// An open file to list.
pub struct FileRow {
    pub id: FileId,
    pub name: String,
    /// The directory that it lies in.
    pub parent: Option<String>,
    /// Where it lies on disk.
    pub path: Option<String>,
}

/// A template or plugin file to list.
pub struct PathRow {
    pub name: String,
    pub path: String,
}

/// A plugin and the commands that it offers.
pub struct PluginRow {
    pub name: String,
    pub commands: Vec<PluginCommand>,
}

/// A format of the copy menu.
pub struct CopyRow {
    pub label: String,
    pub kind: CopyKind,
}

/// A number that was typed.
#[derive(Clone, Copy, Debug, PartialEq, Eq, Structural)]
pub enum Number {
    Absolute(u64),
    /// A number with a sign, counted from the caret.
    Relative(i64),
}

/// What was typed, read as a number, as an offset of the active file, as a
/// range of it, and as an address. An error carries its text.
pub struct TypedArgument {
    pub number: Result<Number, String>,
    pub target: Result<u64, String>,
    pub range: Result<(u64, u64), String>,
}

/// Rows for files on disk.
pub open spec fn open_rows(acc: Seq<EntryView>, has_recent: bool) -> Seq<EntryView> {
    let first = acc.push(
        EntryView::command("menu-file-new"@, Icon::FilePlus, PaletteCommand::NewFile).shortcut(
            Shortcut::NewFile,
        ),
    ).push(EntryView::command("toolbar-open-file"@, Icon::FolderOpen, PaletteCommand::OpenFile));
    let second = if has_recent {
        first.push(
            EntryView::into_mode(
                "palette-open-recent-entry"@,
                Icon::ClockCounterClockwise,
                Mode::Recent,
            ),
        )
    } else {
        first
    };
    second.push(
        EntryView::command(
            "toolbar-browse-vfs"@,
            Icon::TreeStructure,
            PaletteCommand::BrowseArchive,
        ),
    )
}

fn put_open_rows(out: &mut Vec<Entry>, has_recent: bool)
    ensures
        rows_view(final(out)@) == open_rows(rows_view(old(out)@), has_recent),
{
    put(
        out,
        Entry::command("menu-file-new", Icon::FilePlus, PaletteCommand::NewFile).with_shortcut(
            Shortcut::NewFile,
        ),
    );
    put(out, Entry::command("toolbar-open-file", Icon::FolderOpen, PaletteCommand::OpenFile));
    if has_recent {
        put(
            out,
            Entry::into_mode(
                "palette-open-recent-entry",
                Icon::ClockCounterClockwise,
                Mode::Recent,
            ),
        );
    }
    put(
        out,
        Entry::command("toolbar-browse-vfs", Icon::TreeStructure, PaletteCommand::BrowseArchive),
    );
}

/// Rows that show or hide panels.
pub open spec fn panel_rows(acc: Seq<EntryView>, flags: PanelFlags) -> Seq<EntryView> {
    acc.push(
        EntryView::command(
            "menu-view-console"@,
            Icon::Terminal,
            PaletteCommand::ToggleConsole,
        ).subtitle(panel_subtitle(flags.console)),
    ).push(
        EntryView::command(
            "menu-view-inspector"@,
            Icon::Eye,
            PaletteCommand::ToggleInspector,
        ).subtitle(panel_subtitle(flags.inspector)),
    ).push(
        EntryView::command(
            "menu-view-plugins"@,
            Icon::PuzzlePiece,
            PaletteCommand::TogglePlugins,
        ).subtitle(panel_subtitle(flags.plugins)),
    ).push(
        EntryView::new(
            LabelView::Text("Toggle VFS panel"@),
            ActionView::InvokeCommand(PaletteCommand::ToggleWorkspaceVfs),
        ).icon(Icon::TreeStructure).subtitle(panel_subtitle(flags.workspace_tree)),
    ).push(
        EntryView::new(
            LabelView::Text("Toggle tool panel"@),
            ActionView::InvokeCommand(PaletteCommand::ToggleToolPanel),
        ).icon(Icon::SquaresFour).subtitle(panel_subtitle(flags.tool_panel)),
    )
}

fn put_panel_rows(out: &mut Vec<Entry>, flags: PanelFlags)
    ensures
        rows_view(final(out)@) == panel_rows(rows_view(old(out)@), flags),
{
    put(
        out,
        Entry::command(
            "menu-view-console",
            Icon::Terminal,
            PaletteCommand::ToggleConsole,
        ).with_subtitle(panel_label(flags.console)),
    );
    put(
        out,
        Entry::command(
            "menu-view-inspector",
            Icon::Eye,
            PaletteCommand::ToggleInspector,
        ).with_subtitle(panel_label(flags.inspector)),
    );
    put(
        out,
        Entry::command(
            "menu-view-plugins",
            Icon::PuzzlePiece,
            PaletteCommand::TogglePlugins,
        ).with_subtitle(panel_label(flags.plugins)),
    );
    put(
        out,
        Entry::new(
            Label::Text("Toggle VFS panel".to_owned()),
            Action::InvokeCommand(PaletteCommand::ToggleWorkspaceVfs),
        ).with_icon(Icon::TreeStructure).with_subtitle(panel_label(flags.workspace_tree)),
    );
    put(
        out,
        Entry::new(
            Label::Text("Toggle tool panel".to_owned()),
            Action::InvokeCommand(PaletteCommand::ToggleToolPanel),
        ).with_icon(Icon::SquaresFour).with_subtitle(panel_label(flags.tool_panel)),
    );
}

/// Rows that lead into other modes.
pub open spec fn mode_rows(acc: Seq<EntryView>, has_active: bool) -> Seq<EntryView> {
    let first = acc.push(
        EntryView::into_mode("palette-run-template-entry"@, Icon::Scroll, Mode::Templates),
    ).push(EntryView::into_mode("palette-uninstall-template"@, Icon::Trash, Mode::Uninstall)).push(
        EntryView::into_mode(
            "palette-uninstall-plugin"@,
            Icon::Trash,
            Mode::UninstallPlugin,
        ).subtitle(LabelView::Key("palette-delete-plugin-subtitle"@)),
    );
    let second = if has_active {
        first.push(
            EntryView::into_mode("palette-go-to-offset-entry"@, Icon::Crosshair, Mode::GoToOffset),
        ).push(
            EntryView::into_mode(
                "palette-select-from-offset-entry"@,
                Icon::ArrowsOutLineHorizontal,
                Mode::SelectFromOffset,
            ),
        ).push(
            EntryView::into_mode(
                "palette-select-range-entry"@,
                Icon::BracketsCurly,
                Mode::SelectRange,
            ),
        ).push(
            EntryView::into_mode(
                "palette-set-columns-local-entry"@,
                Icon::Columns,
                Mode::SetColumnsLocal,
            ),
        )
    } else {
        first
    };
    second.push(
        EntryView::into_mode(
            "palette-set-columns-global-entry"@,
            Icon::ColumnsPlusRight,
            Mode::SetColumnsGlobal,
        ),
    )
}

fn put_mode_rows(out: &mut Vec<Entry>, has_active: bool)
    ensures
        rows_view(final(out)@) == mode_rows(rows_view(old(out)@), has_active),
{
    put(out, Entry::into_mode("palette-run-template-entry", Icon::Scroll, Mode::Templates));
    put(out, Entry::into_mode("palette-uninstall-template", Icon::Trash, Mode::Uninstall));
    put(
        out,
        Entry::into_mode(
            "palette-uninstall-plugin",
            Icon::Trash,
            Mode::UninstallPlugin,
        ).with_subtitle(Label::Key("palette-delete-plugin-subtitle")),
    );
    if has_active {
        put(
            out,
            Entry::into_mode("palette-go-to-offset-entry", Icon::Crosshair, Mode::GoToOffset),
        );
        put(
            out,
            Entry::into_mode(
                "palette-select-from-offset-entry",
                Icon::ArrowsOutLineHorizontal,
                Mode::SelectFromOffset,
            ),
        );
        put(
            out,
            Entry::into_mode("palette-select-range-entry", Icon::BracketsCurly, Mode::SelectRange),
        );
        put(
            out,
            Entry::into_mode(
                "palette-set-columns-local-entry",
                Icon::Columns,
                Mode::SetColumnsLocal,
            ),
        );
    }
    put(
        out,
        Entry::into_mode(
            "palette-set-columns-global-entry",
            Icon::ColumnsPlusRight,
            Mode::SetColumnsGlobal,
        ),
    );
}

/// Rows that edit the active file.
pub open spec fn edit_rows(acc: Seq<EntryView>, h: HistoryContext) -> Seq<EntryView> {
    let undo = if h.can_undo {
        acc.push(
            EntryView::command(
                "menu-edit-undo"@,
                Icon::ArrowCounterClockwise,
                PaletteCommand::Undo,
            ).shortcut(Shortcut::Undo),
        )
    } else {
        acc
    };
    let redo = if h.can_redo {
        undo.push(
            EntryView::command(
                "menu-edit-redo"@,
                Icon::ArrowClockwise,
                PaletteCommand::Redo,
            ).shortcut(Shortcut::Redo),
        )
    } else {
        undo
    };
    let lock = if h.has_active_file {
        redo.push(lock_row(h.can_paste))
    } else {
        redo
    };
    if h.can_paste {
        lock.push(
            EntryView::command(
                "menu-edit-paste"@,
                Icon::ClipboardText,
                PaletteCommand::Paste,
            ).shortcut(Shortcut::Paste),
        ).push(
            EntryView::command(
                "menu-edit-paste-as-hex"@,
                Icon::ClipboardText,
                PaletteCommand::PasteAsHex,
            ).shortcut(Shortcut::PasteAsHex),
        )
    } else {
        lock
    }
}

/// The row that locks or unlocks the active file: it tells what it does.
pub open spec fn lock_row(editable: bool) -> EntryView {
    EntryView::new(
        LabelView::Key("palette-toggle-readonly"@),
        ActionView::InvokeCommand(PaletteCommand::ToggleEditMode),
    ).subtitle(
        if editable {
            LabelView::Key("palette-toggle-readonly-result-readonly"@)
        } else {
            LabelView::Key("palette-toggle-readonly-result-mutable"@)
        },
    ).icon(
        if editable {
            Icon::Lock
        } else {
            Icon::LockOpen
        },
    ).shortcut(Shortcut::ToggleEditMode)
}

fn put_edit_rows(out: &mut Vec<Entry>, h: HistoryContext)
    ensures
        rows_view(final(out)@) == edit_rows(rows_view(old(out)@), h),
{
    if h.can_undo {
        put(
            out,
            Entry::command(
                "menu-edit-undo",
                Icon::ArrowCounterClockwise,
                PaletteCommand::Undo,
            ).with_shortcut(Shortcut::Undo),
        );
    }
    if h.can_redo {
        put(
            out,
            Entry::command(
                "menu-edit-redo",
                Icon::ArrowClockwise,
                PaletteCommand::Redo,
            ).with_shortcut(Shortcut::Redo),
        );
    }
    if h.has_active_file {
        let (key, icon) = if h.can_paste {
            ("palette-toggle-readonly-result-readonly", Icon::Lock)
        } else {
            ("palette-toggle-readonly-result-mutable", Icon::LockOpen)
        };
        put(
            out,
            Entry::new(
                Label::Key("palette-toggle-readonly"),
                Action::InvokeCommand(PaletteCommand::ToggleEditMode),
            ).with_subtitle(Label::Key(key)).with_icon(icon).with_shortcut(
                Shortcut::ToggleEditMode,
            ),
        );
    }
    if h.can_paste {
        put(
            out,
            Entry::command(
                "menu-edit-paste",
                Icon::ClipboardText,
                PaletteCommand::Paste,
            ).with_shortcut(Shortcut::Paste),
        );
        put(
            out,
            Entry::command(
                "menu-edit-paste-as-hex",
                Icon::ClipboardText,
                PaletteCommand::PasteAsHex,
            ).with_shortcut(Shortcut::PasteAsHex),
        );
    }
}

/// Rows that copy numbers about the active file. Each tells what it would
/// copy.
pub open spec fn number_rows(acc: Seq<EntryView>, at: OffsetContext, base: OffsetBase) -> Seq<
    EntryView,
> {
    let caret = match at.selection {
        Some(sel) => acc.push(
            EntryView::command(
                "palette-copy-caret-offset"@,
                Icon::Copy,
                PaletteCommand::CopyCaretOffset,
            ).subtitle(LabelView::Text(offset_text(at.cursor, base))),
        ),
        None => acc,
    };
    let range = if at.selection matches Some(sel) && sel.spec_len() > 1 {
        caret.push(
            EntryView::command(
                "palette-copy-selection-range"@,
                Icon::Copy,
                PaletteCommand::CopySelectionRange,
            ).subtitle(LabelView::Text(range_text(at.selection->0, base))),
        ).push(
            EntryView::command(
                "palette-copy-selection-length"@,
                Icon::Copy,
                PaletteCommand::CopySelectionLength,
            ).subtitle(LabelView::Text(offset_text(at.selection->0.spec_len(), base))),
        )
    } else {
        caret
    };
    range.push(
        EntryView::command(
            "palette-copy-file-length"@,
            Icon::Copy,
            PaletteCommand::CopyFileLength,
        ).subtitle(LabelView::Text(offset_text(at.source_len, base))),
    )
}

fn put_number_rows(out: &mut Vec<Entry>, at: OffsetContext, base: OffsetBase)
    ensures
        rows_view(final(out)@) == number_rows(rows_view(old(out)@), at, base),
{
    if let Some(sel) = at.selection {
        put(
            out,
            Entry::command(
                "palette-copy-caret-offset",
                Icon::Copy,
                PaletteCommand::CopyCaretOffset,
            ).with_subtitle(Label::Text(format_offset(at.cursor, base))),
        );
        if sel.len() > 1 {
            put(
                out,
                Entry::command(
                    "palette-copy-selection-range",
                    Icon::Copy,
                    PaletteCommand::CopySelectionRange,
                ).with_subtitle(Label::Text(format_range(sel, base))),
            );
            put(
                out,
                Entry::command(
                    "palette-copy-selection-length",
                    Icon::Copy,
                    PaletteCommand::CopySelectionLength,
                ).with_subtitle(Label::Text(format_offset(sel.len(), base))),
            );
        }
    }
    put(
        out,
        Entry::command(
            "palette-copy-file-length",
            Icon::Copy,
            PaletteCommand::CopyFileLength,
        ).with_subtitle(Label::Text(format_offset(at.source_len, base))),
    );
}

/// Rows that split and merge panes.
pub open spec fn split_rows(acc: Seq<EntryView>) -> Seq<EntryView> {
    acc.push(
        EntryView::command(
            "palette-split-right"@,
            Icon::ArrowSquareRight,
            PaletteCommand::SplitRight,
        ),
    ).push(
        EntryView::command(
            "palette-split-left"@,
            Icon::ArrowSquareLeft,
            PaletteCommand::SplitLeft,
        ),
    ).push(
        EntryView::command(
            "palette-split-down"@,
            Icon::ArrowSquareDown,
            PaletteCommand::SplitDown,
        ),
    ).push(
        EntryView::command("palette-split-up"@, Icon::ArrowSquareUp, PaletteCommand::SplitUp),
    ).push(
        EntryView::command(
            "palette-merge-right"@,
            Icon::ArrowLineRight,
            PaletteCommand::MergeRight,
        ),
    ).push(
        EntryView::command("palette-merge-left"@, Icon::ArrowLineLeft, PaletteCommand::MergeLeft),
    ).push(
        EntryView::command("palette-merge-down"@, Icon::ArrowLineDown, PaletteCommand::MergeDown),
    ).push(EntryView::command("palette-merge-up"@, Icon::ArrowLineUp, PaletteCommand::MergeUp))
}

fn put_split_rows(out: &mut Vec<Entry>)
    ensures
        rows_view(final(out)@) == split_rows(rows_view(old(out)@)),
{
    put(
        out,
        Entry::command(
            "palette-split-right",
            Icon::ArrowSquareRight,
            PaletteCommand::SplitRight,
        ),
    );
    put(
        out,
        Entry::command("palette-split-left", Icon::ArrowSquareLeft, PaletteCommand::SplitLeft),
    );
    put(
        out,
        Entry::command("palette-split-down", Icon::ArrowSquareDown, PaletteCommand::SplitDown),
    );
    put(out, Entry::command("palette-split-up", Icon::ArrowSquareUp, PaletteCommand::SplitUp));
    put(
        out,
        Entry::command("palette-merge-right", Icon::ArrowLineRight, PaletteCommand::MergeRight),
    );
    put(out, Entry::command("palette-merge-left", Icon::ArrowLineLeft, PaletteCommand::MergeLeft));
    put(out, Entry::command("palette-merge-down", Icon::ArrowLineDown, PaletteCommand::MergeDown));
    put(out, Entry::command("palette-merge-up", Icon::ArrowLineUp, PaletteCommand::MergeUp));
}

/// Rows that move tabs and focus between panes.
pub open spec fn pane_rows(acc: Seq<EntryView>) -> Seq<EntryView> {
    let pick = LabelView::Key("palette-pane-pick-subtitle"@);
    acc.push(
        EntryView::command(
            "palette-move-tab-right"@,
            Icon::ArrowFatRight,
            PaletteCommand::MoveTabRight,
        ),
    ).push(
        EntryView::command(
            "palette-move-tab-left"@,
            Icon::ArrowFatLeft,
            PaletteCommand::MoveTabLeft,
        ),
    ).push(
        EntryView::command(
            "palette-move-tab-down"@,
            Icon::ArrowFatDown,
            PaletteCommand::MoveTabDown,
        ),
    ).push(
        EntryView::command("palette-move-tab-up"@, Icon::ArrowFatUp, PaletteCommand::MoveTabUp),
    ).push(
        EntryView::command(
            "palette-move-tab-visual"@,
            Icon::CrosshairSimple,
            PaletteCommand::MoveTabVisual,
        ).subtitle(pick),
    ).push(
        EntryView::command(
            "palette-merge-visual"@,
            Icon::CrosshairSimple,
            PaletteCommand::MergeVisual,
        ).subtitle(pick),
    ).push(
        EntryView::command(
            "palette-focus-pane"@,
            Icon::CrosshairSimple,
            PaletteCommand::FocusPane,
        ).subtitle(pick).shortcut(Shortcut::FocusPane),
    )
}

fn put_pane_rows(out: &mut Vec<Entry>)
    ensures
        rows_view(final(out)@) == pane_rows(rows_view(old(out)@)),
{
    put(
        out,
        Entry::command(
            "palette-move-tab-right",
            Icon::ArrowFatRight,
            PaletteCommand::MoveTabRight,
        ),
    );
    put(
        out,
        Entry::command("palette-move-tab-left", Icon::ArrowFatLeft, PaletteCommand::MoveTabLeft),
    );
    put(
        out,
        Entry::command("palette-move-tab-down", Icon::ArrowFatDown, PaletteCommand::MoveTabDown),
    );
    put(out, Entry::command("palette-move-tab-up", Icon::ArrowFatUp, PaletteCommand::MoveTabUp));
    put(
        out,
        Entry::command(
            "palette-move-tab-visual",
            Icon::CrosshairSimple,
            PaletteCommand::MoveTabVisual,
        ).with_subtitle(Label::Key("palette-pane-pick-subtitle")),
    );
    put(
        out,
        Entry::command(
            "palette-merge-visual",
            Icon::CrosshairSimple,
            PaletteCommand::MergeVisual,
        ).with_subtitle(Label::Key("palette-pane-pick-subtitle")),
    );
    put(
        out,
        Entry::command(
            "palette-focus-pane",
            Icon::CrosshairSimple,
            PaletteCommand::FocusPane,
        ).with_subtitle(Label::Key("palette-pane-pick-subtitle")).with_shortcut(
            Shortcut::FocusPane,
        ),
    );
}

/// A row that copies the selection in a byte format.
pub open spec fn copy_bytes_row(row: CopyRow) -> EntryView {
    let plain = EntryView::new(
        LabelView::Text("Copy bytes: "@ + row.label@),
        ActionView::Copy(row.kind),
    ).icon(Icon::Copy);
    match row.kind {
        CopyKind::BytesLossyUtf8 => plain.shortcut(Shortcut::CopyBytes),
        CopyKind::BytesHexSpaced => plain.shortcut(Shortcut::CopyHex),
        _ => plain,
    }
}

/// A row that copies the selection as a number.
pub open spec fn copy_value_row(row: CopyRow) -> EntryView {
    EntryView::new(
        LabelView::Text("Copy value: "@ + row.label@),
        ActionView::Copy(row.kind),
    ).icon(Icon::Copy)
}

fn put_copy_bytes(out: &mut Vec<Entry>, rows: &Vec<CopyRow>)
    ensures
        rows_view(final(out)@) == rows_view(old(out)@) + rows@.map_values(
            |r: CopyRow| copy_bytes_row(r),
        ),
{
    let mut i: usize = 0;
    assert(rows_view(out@) =~= rows_view(old(out)@) + rows@.take(0).map_values(
        |r: CopyRow| copy_bytes_row(r),
    ));
    while i < rows.len()
        invariant
            i <= rows@.len(),
            rows_view(out@) == rows_view(old(out)@) + rows@.take(i as int).map_values(
                |r: CopyRow| copy_bytes_row(r),
            ),
        decreases rows.len() - i,
    {
        let kind = rows[i].kind;
        let plain = Entry::new(
            Label::Text(join2("Copy bytes: ", rows[i].label.as_str())),
            Action::Copy(kind),
        ).with_icon(Icon::Copy);
        let row = match kind {
            CopyKind::BytesLossyUtf8 => plain.with_shortcut(Shortcut::CopyBytes),
            CopyKind::BytesHexSpaced => plain.with_shortcut(Shortcut::CopyHex),
            _ => plain,
        };
        assert(row@ == copy_bytes_row(rows@[i as int]));
        put(out, row);
        i = i + 1;
        assert(rows_view(out@) =~= rows_view(old(out)@) + rows@.take(i as int).map_values(
            |r: CopyRow| copy_bytes_row(r),
        ));
    }
    assert(rows@.take(rows@.len() as int) =~= rows@);
}

fn put_copy_values(out: &mut Vec<Entry>, rows: &Vec<CopyRow>)
    ensures
        rows_view(final(out)@) == rows_view(old(out)@) + rows@.map_values(
            |r: CopyRow| copy_value_row(r),
        ),
{
    let mut i: usize = 0;
    assert(rows_view(out@) =~= rows_view(old(out)@) + rows@.take(0).map_values(
        |r: CopyRow| copy_value_row(r),
    ));
    while i < rows.len()
        invariant
            i <= rows@.len(),
            rows_view(out@) == rows_view(old(out)@) + rows@.take(i as int).map_values(
                |r: CopyRow| copy_value_row(r),
            ),
        decreases rows.len() - i,
    {
        let row = Entry::new(
            Label::Text(join2("Copy value: ", rows[i].label.as_str())),
            Action::Copy(rows[i].kind),
        ).with_icon(Icon::Copy);
        assert(row@ == copy_value_row(rows@[i as int]));
        put(out, row);
        i = i + 1;
        assert(rows_view(out@) =~= rows_view(old(out)@) + rows@.take(i as int).map_values(
            |r: CopyRow| copy_value_row(r),
        ));
    }
    assert(rows@.take(rows@.len() as int) =~= rows@);
}

/// A row that focuses an open file.
pub open spec fn file_row(f: FileRow) -> EntryView {
    let plain = EntryView::new(LabelView::Text(f.name@), ActionView::FocusFile(f.id)).icon(
        Icon::File,
    );
    match f.parent {
        Some(p) => plain.subtitle(LabelView::Text(p@)),
        None => plain,
    }
}

fn put_file_rows(out: &mut Vec<Entry>, files: &Vec<FileRow>)
    ensures
        rows_view(final(out)@) == rows_view(old(out)@) + files@.map_values(
            |f: FileRow| file_row(f),
        ),
{
    let mut i: usize = 0;
    assert(rows_view(out@) =~= rows_view(old(out)@) + files@.take(0).map_values(
        |f: FileRow| file_row(f),
    ));
    while i < files.len()
        invariant
            i <= files@.len(),
            rows_view(out@) == rows_view(old(out)@) + files@.take(i as int).map_values(
                |f: FileRow| file_row(f),
            ),
        decreases files.len() - i,
    {
        let plain = Entry::new(
            Label::Text(files[i].name.clone()),
            Action::FocusFile(files[i].id),
        ).with_icon(Icon::File);
        let row = match &files[i].parent {
            Some(p) => plain.with_subtitle(Label::Text(p.clone())),
            None => plain,
        };
        assert(row@ == file_row(files@[i as int]));
        put(out, row);
        i = i + 1;
        assert(rows_view(out@) =~= rows_view(old(out)@) + files@.take(i as int).map_values(
            |f: FileRow| file_row(f),
        ));
    }
    assert(files@.take(files@.len() as int) =~= files@);
}

/// A row that asks a plugin to run one of its commands. In the main list the
/// plugin's name stands before the command's.
pub open spec fn plugin_row(plugin: Seq<char>, cmd: PluginCommand, prefixed: bool) -> EntryView {
    let plain = EntryView::new(
        LabelView::Text(
            if prefixed {
                plugin + ": "@ + cmd.label@
            } else {
                cmd.label@
            },
        ),
        ActionView::InvokePluginCommand(plugin, cmd.id@),
    );
    let told = match cmd.subtitle {
        Some(s) => plain.subtitle(LabelView::Text(s@)),
        None => plain,
    };
    told.icon(Icon::PuzzlePiece).own_icon(
        match cmd.icon {
            Some(s) => Some(s@),
            None => None,
        },
    )
}

/// The rows for the commands of a plugin.
pub open spec fn plugin_rows(plugin: Seq<char>, cmds: Seq<PluginCommand>, prefixed: bool) -> Seq<
    EntryView,
> {
    cmds.map_values(|c: PluginCommand| plugin_row(plugin, c, prefixed))
}

fn put_plugin_rows(
    out: &mut Vec<Entry>,
    plugin: &String,
    cmds: &Vec<PluginCommand>,
    prefixed: bool,
)
    ensures
        rows_view(final(out)@) == rows_view(old(out)@) + plugin_rows(plugin@, cmds@, prefixed),
{
    let mut i: usize = 0;
    assert(rows_view(out@) =~= rows_view(old(out)@) + plugin_rows(
        plugin@,
        cmds@.take(0),
        prefixed,
    ));
    while i < cmds.len()
        invariant
            i <= cmds@.len(),
            rows_view(out@) == rows_view(old(out)@) + plugin_rows(
                plugin@,
                cmds@.take(i as int),
                prefixed,
            ),
        decreases cmds.len() - i,
    {
        let cmd = &cmds[i];
        let label = if prefixed {
            let mut text = join2(plugin.as_str(), ": ");
            text.append(cmd.label.as_str());
            text
        } else {
            cmd.label.clone()
        };
        let plain = Entry::new(
            Label::Text(label),
            Action::InvokePluginCommand {
                plugin_name: plugin.clone(),
                command_id: cmd.id.clone(),
            },
        );
        let told = match &cmd.subtitle {
            Some(s) => plain.with_subtitle(Label::Text(s.clone())),
            None => plain,
        };
        let own = match &cmd.icon {
            Some(s) => Some(s.clone()),
            None => None,
        };
        let row = told.with_icon(Icon::PuzzlePiece).with_own_icon(own);
        assert(row@ == plugin_row(plugin@, cmds@[i as int], prefixed));
        put(out, row);
        i = i + 1;
        assert(rows_view(out@) =~= rows_view(old(out)@) + plugin_rows(
            plugin@,
            cmds@.take(i as int),
            prefixed,
        ));
    }
    assert(cmds@.take(cmds@.len() as int) =~= cmds@);
}

/// The rows for the commands of every plugin.
pub open spec fn all_plugin_rows(plugins: Seq<PluginRow>) -> Seq<EntryView>
    decreases plugins.len(),
{
    if plugins.len() == 0 {
        seq![]
    } else {
        all_plugin_rows(plugins.drop_last()) + plugin_rows(
            plugins.last().name@,
            plugins.last().commands@,
            true,
        )
    }
}

fn put_all_plugin_rows(out: &mut Vec<Entry>, plugins: &Vec<PluginRow>)
    ensures
        rows_view(final(out)@) == rows_view(old(out)@) + all_plugin_rows(plugins@),
{
    let mut i: usize = 0;
    assert(plugins@.take(0) =~= seq![]);
    assert(rows_view(out@) =~= rows_view(old(out)@) + all_plugin_rows(plugins@.take(0)));
    while i < plugins.len()
        invariant
            i <= plugins@.len(),
            rows_view(out@) == rows_view(old(out)@) + all_plugin_rows(plugins@.take(i as int)),
        decreases plugins.len() - i,
    {
        put_plugin_rows(out, &plugins[i].name, &plugins[i].commands, true);
        i = i + 1;
        assert(plugins@.take(i as int).drop_last() =~= plugins@.take(i - 1));
        assert(rows_view(out@) =~= rows_view(old(out)@) + all_plugin_rows(plugins@.take(i as int)));
    }
    assert(plugins@.take(plugins@.len() as int) =~= plugins@);
}

/// The rows of the main list behind the fixed ones.
pub struct MainLists {
    /// The formats of the copy menu for bytes.
    pub copy_bytes: Vec<CopyRow>,
    /// The formats of the copy menu for numbers.
    pub copy_values: Vec<CopyRow>,
    pub files: Vec<FileRow>,
    pub plugins: Vec<PluginRow>,
}

/// What can be copied: nothing, bytes, or bytes that are also a number.
#[derive(Clone, Copy, Debug, PartialEq, Eq, Structural)]
pub struct CopyContext {
    pub scalar_width: bool,
}

/// The main list.
pub open spec fn main_rows(
    has_recent: bool,
    flags: PanelFlags,
    copy: Option<CopyContext>,
    h: HistoryContext,
    at: OffsetContext,
    base: OffsetBase,
    lists: MainLists,
) -> Seq<EntryView> {
    let fixed = edit_rows(
        mode_rows(panel_rows(open_rows(seq![], has_recent), flags), h.has_active_file),
        h,
    );
    let numbers = if h.has_active_file {
        number_rows(fixed, at, base)
    } else {
        fixed
    };
    let panes = pane_rows(split_rows(numbers));
    let copies = match copy {
        Some(c) => {
            let bytes = panes + lists.copy_bytes@.map_values(|r: CopyRow| copy_bytes_row(r));
            if c.scalar_width {
                bytes + lists.copy_values@.map_values(|r: CopyRow| copy_value_row(r))
            } else {
                bytes
            }
        },
        None => panes,
    };
    copies + lists.files@.map_values(|f: FileRow| file_row(f)) + all_plugin_rows(lists.plugins@)
}

fn build_main(
    has_recent: bool,
    flags: PanelFlags,
    copy: Option<CopyContext>,
    h: HistoryContext,
    at: OffsetContext,
    base: OffsetBase,
    lists: &MainLists,
) -> (r: Vec<Entry>)
    ensures
        rows_view(r@) == main_rows(has_recent, flags, copy, h, at, base, *lists),
{
    let mut out: Vec<Entry> = Vec::new();
    assert(rows_view(out@) =~= seq![]);
    put_open_rows(&mut out, has_recent);
    put_panel_rows(&mut out, flags);
    put_mode_rows(&mut out, h.has_active_file);
    put_edit_rows(&mut out, h);
    if h.has_active_file {
        put_number_rows(&mut out, at, base);
    }
    put_split_rows(&mut out);
    put_pane_rows(&mut out);
    if let Some(c) = copy {
        put_copy_bytes(&mut out, &lists.copy_bytes);
        if c.scalar_width {
            put_copy_values(&mut out, &lists.copy_values);
        }
    }
    put_file_rows(&mut out, &lists.files);
    put_all_plugin_rows(&mut out, &lists.plugins);
    out
}

/// A row that runs a template.
pub open spec fn run_template_row(t: PathRow) -> EntryView {
    EntryView::new(
        LabelView::Args("palette-run-template-fmt"@, seq![("name"@, t.name@)]),
        ActionView::RunTemplate(t.path@),
    ).subtitle(LabelView::Text(t.path@)).icon(Icon::Scroll)
}

/// A row that removes a template.
pub open spec fn delete_template_row(t: PathRow) -> EntryView {
    EntryView::new(
        LabelView::Args("palette-delete-template-fmt"@, seq![("name"@, t.name@)]),
        ActionView::UninstallTemplate(t.path@),
    ).subtitle(LabelView::Text(t.path@)).icon(Icon::Trash)
}

/// A row that removes a plugin.
pub open spec fn delete_plugin_row(t: PathRow) -> EntryView {
    EntryView::new(
        LabelView::Args("palette-delete-plugin-fmt"@, seq![("name"@, t.name@)]),
        ActionView::UninstallPlugin(t.path@),
    ).subtitle(LabelView::Text(t.path@)).icon(Icon::Trash)
}

/// What is done to the file of a row.
#[derive(Clone, Copy, Debug, PartialEq, Eq, Structural)]
pub enum PathUse {
    RunTemplate,
    DeleteTemplate,
    DeletePlugin,
}

/// A row for a template or plugin file.
pub open spec fn path_row(row: PathRow, what: PathUse) -> EntryView {
    match what {
        PathUse::RunTemplate => run_template_row(row),
        PathUse::DeleteTemplate => delete_template_row(row),
        PathUse::DeletePlugin => delete_plugin_row(row),
    }
}

/// Rows for template or plugin files.
pub open spec fn path_rows(rows: Seq<PathRow>, what: PathUse) -> Seq<EntryView> {
    rows.map_values(|r: PathRow| path_row(r, what))
}

fn put_path_rows(out: &mut Vec<Entry>, rows: &Vec<PathRow>, what: PathUse)
    ensures
        rows_view(final(out)@) == rows_view(old(out)@) + path_rows(rows@, what),
{
    let mut i: usize = 0;
    assert(rows_view(out@) =~= rows_view(old(out)@) + path_rows(rows@.take(0), what));
    while i < rows.len()
        invariant
            i <= rows@.len(),
            rows_view(out@) == rows_view(old(out)@) + path_rows(rows@.take(i as int), what),
        decreases rows.len() - i,
    {
        let name = rows[i].name.clone();
        let path = rows[i].path.clone();
        let subtitle = Label::Text(rows[i].path.clone());
        let row = match what {
            PathUse::RunTemplate => Entry::new(
                label_arg("palette-run-template-fmt", "name", name),
                Action::RunTemplate(path),
            ).with_subtitle(subtitle).with_icon(Icon::Scroll),
            PathUse::DeleteTemplate => Entry::new(
                label_arg("palette-delete-template-fmt", "name", name),
                Action::UninstallTemplate(path),
            ).with_subtitle(subtitle).with_icon(Icon::Trash),
            PathUse::DeletePlugin => Entry::new(
                label_arg("palette-delete-plugin-fmt", "name", name),
                Action::UninstallPlugin(path),
            ).with_subtitle(subtitle).with_icon(Icon::Trash),
        };
        assert(row@ == path_row(rows@[i as int], what));
        put(out, row);
        i = i + 1;
        assert(rows_view(out@) =~= rows_view(old(out)@) + path_rows(rows@.take(i as int), what));
    }
    assert(rows@.take(rows@.len() as int) =~= rows@);
}

/// The list of templates: those to run, and the ways to install and remove
/// one.
pub open spec fn template_rows(ranked: Seq<PathRow>) -> Seq<EntryView> {
    path_rows(ranked, PathUse::RunTemplate).push(
        EntryView::new(
            LabelView::Key("palette-install-template"@),
            ActionView::InstallTemplate,
        ).subtitle(LabelView::Key("palette-install-template-subtitle"@)).icon(Icon::Download),
    ).push(EntryView::into_mode("palette-uninstall-template"@, Icon::Trash, Mode::Uninstall))
}

/// Whether a file is open from a path.
pub open spec fn path_open(files: Seq<FileRow>, path: Seq<char>) -> bool {
    exists|i: int|
        0 <= i < files.len() && ((#[trigger] files[i]).path matches Some(p) && p@ == path)
}

/// A row that opens a file that was open before.
pub open spec fn recent_row(f: RecentFile) -> EntryView {
    let plain = EntryView::new(LabelView::Text(f.name@), ActionView::OpenRecent(f.path@)).icon(
        Icon::ClockCounterClockwise,
    );
    match f.parent {
        Some(p) => plain.subtitle(LabelView::Text(p@)),
        None => plain,
    }
}

/// The list of files that were open before, without those that are open.
pub open spec fn recent_rows(recents: Seq<RecentFile>, files: Seq<FileRow>) -> Seq<EntryView>
    decreases recents.len(),
{
    if recents.len() == 0 {
        seq![]
    } else {
        let before = recent_rows(recents.drop_last(), files);
        if path_open(files, recents.last().path@) {
            before
        } else {
            before.push(recent_row(recents.last()))
        }
    }
}

/// The list of files that were open before offers no file that is open.
pub proof fn law_recent_rows_not_open(recents: Seq<RecentFile>, files: Seq<FileRow>, i: int)
    requires
        0 <= i < recent_rows(recents, files).len(),
    ensures
        recent_rows(recents, files)[i].action matches ActionView::OpenRecent(path) && !path_open(
            files,
            path,
        ),
    decreases recents.len(),
{
    let before = recent_rows(recents.drop_last(), files);
    if i < before.len() {
        law_recent_rows_not_open(recents.drop_last(), files, i);
    }
}

fn is_path_open(files: &Vec<FileRow>, path: &String) -> (r: bool)
    ensures
        r == path_open(files@, path@),
{
    let mut i: usize = 0;
    while i < files.len()
        invariant
            i <= files@.len(),
            forall|j: int|
                0 <= j < i ==> !((#[trigger] files@[j]).path matches Some(p) && p@ == path@),
        decreases files.len() - i,
    {
        if let Some(p) = &files[i].path {
            if text_eq(p.as_str(), path.as_str()) {
                assert(files@[i as int].path matches Some(p) && p@ == path@);
                return true;
            }
        }
        i = i + 1;
    }
    false
}

fn build_recent(recents: &Vec<RecentFile>, files: &Vec<FileRow>) -> (r: Vec<Entry>)
    ensures
        rows_view(r@) == recent_rows(recents@, files@),
{
    let mut out: Vec<Entry> = Vec::new();
    let mut i: usize = 0;
    assert(recents@.take(0) =~= seq![]);
    assert(rows_view(out@) =~= recent_rows(recents@.take(0), files@));
    while i < recents.len()
        invariant
            i <= recents@.len(),
            rows_view(out@) == recent_rows(recents@.take(i as int), files@),
        decreases recents.len() - i,
    {
        let f = &recents[i];
        assert(recents@.take(i as int + 1).drop_last() =~= recents@.take(i as int));
        if !is_path_open(files, &f.path) {
            let plain = Entry::new(
                Label::Text(f.name.clone()),
                Action::OpenRecent(f.path.clone()),
            ).with_icon(Icon::ClockCounterClockwise);
            let row = match &f.parent {
                Some(p) => plain.with_subtitle(Label::Text(p.clone())),
                None => plain,
            };
            assert(row@ == recent_row(recents@[i as int]));
            put(&mut out, row);
        }
        i = i + 1;
    }
    assert(recents@.take(recents@.len() as int) =~= recents@);
    out
}

/// A row that tells why what was typed cannot be used. Picking it does
/// nothing.
pub open spec fn invalid_row(query: Seq<char>, reason: LabelView) -> EntryView {
    EntryView::new(
        LabelView::With("palette-invalid-fmt"@, "reason"@, Box::new(reason)),
        ActionView::NoOp,
    ).icon(Icon::Warning).subtitle(LabelView::Text(query))
}

/// Appends a row that tells why what was typed cannot be used.
pub fn invalid_entry(out: &mut Vec<Entry>, query: &str, reason: Label)
    ensures
        rows_view(final(out)@) == rows_view(old(out)@).push(invalid_row(query@, reason@)),
{
    proof {
        reveal_with_fuel(crate::labels::label_view, 2);
    }
    let row = Entry::new(
        Label::With("palette-invalid-fmt", "reason", Box::new(reason)),
        Action::NoOp,
    ).with_icon(Icon::Warning).with_subtitle(Label::Text(query.to_owned()));
    put(out, row);
}

/// An offset with its prefix.
pub open spec fn hex_text(n: u64) -> Seq<char> {
    "0x"@ + hex(n as nat)
}

pub(crate) fn hex_string(n: u64) -> (r: String)
    ensures
        r@ == hex_text(n),
{
    let mut out = "0x".to_owned();
    push_hex(&mut out, n);
    out
}

/// The row for an offset to go to.
pub open spec fn go_to_row(typed: TypedArgument, query: Seq<char>) -> EntryView {
    match typed.target {
        Ok(target) => EntryView::new(
            LabelView::Args("palette-go-to-offset-fmt"@, seq![("offset"@, hex_text(target))]),
            ActionView::GoToOffset(target),
        ).icon(Icon::Crosshair).subtitle(LabelView::Text(dec(target as nat))),
        Err(e) => invalid_row(query, LabelView::Text(e@)),
    }
}

/// The row for a number of bytes to select from the caret. It has to be given
/// without a sign and not be zero, and is cut at the end of the file.
pub open spec fn select_from_row(typed: TypedArgument, query: Seq<char>, at: OffsetContext)
    -> EntryView {
    match typed.number {
        Ok(Number::Absolute(count)) => if count == 0 {
            invalid_row(query, LabelView::Text("count must be nonzero"@))
        } else if at.source_len <= at.cursor {
            invalid_row(query, LabelView::Text("at EOF"@))
        } else {
            let left = at.source_len - at.cursor;
            let taken = (if count < left {
                count as int
            } else {
                left
            }) as u64;
            let end = (at.cursor + taken) as u64;
            EntryView::new(
                LabelView::Args(
                    "palette-select-from-offset-fmt"@,
                    seq![("count"@, dec(taken as nat)), ("start"@, hex_text(at.cursor))],
                ),
                ActionView::SetSelection(at.cursor, end),
            ).icon(Icon::ArrowsOutLineHorizontal).subtitle(
                LabelView::Text(hex_text(at.cursor) + " .. "@ + hex_text(end)),
            )
        },
        Ok(Number::Relative(_)) => invalid_row(
            query,
            LabelView::Text("count must be absolute (no + / - prefix)"@),
        ),
        Err(e) => invalid_row(query, LabelView::Text(e@)),
    }
}

/// How many bytes a range has.
pub open spec fn range_len(range: (u64, u64)) -> u64 {
    if range.1 >= range.0 {
        (range.1 - range.0) as u64
    } else {
        0
    }
}

/// The row for a range to select.
pub open spec fn select_range_row(typed: TypedArgument, query: Seq<char>) -> EntryView {
    match typed.range {
        Ok(range) => EntryView::new(
            LabelView::Args(
                "palette-select-range-fmt"@,
                seq![
                    ("start"@, hex_text(range.0)),
                    ("end"@, hex_text(range.1)),
                    ("count"@, dec(range_len(range) as nat)),
                ],
            ),
            ActionView::SetSelection(range.0, range.1),
        ).icon(Icon::BracketsCurly),
        Err(e) => invalid_row(query, LabelView::Text(e@)),
    }
}

/// The rows of a mode that asks for an offset, a number of bytes or a range:
/// none until something is typed.
pub open spec fn offset_rows(
    mode: Mode,
    query: Seq<char>,
    typed: TypedArgument,
    at: OffsetContext,
) -> Seq<EntryView> {
    if query.len() == 0 {
        seq![]
    } else {
        match mode {
            Mode::GoToOffset => seq![go_to_row(typed, query)],
            Mode::GoToAddress => seq![go_to_row(typed, query)],
            Mode::SelectFromOffset => seq![select_from_row(typed, query, at)],
            Mode::SelectRange => seq![select_range_row(typed, query)],
            _ => seq![],
        }
    }
}

fn put_go_to(out: &mut Vec<Entry>, query: &str, typed: &TypedArgument)
    ensures
        rows_view(final(out)@) == rows_view(old(out)@).push(go_to_row(*typed, query@)),
{
    match &typed.target {
        Ok(target) => {
            let target: u64 = *target;
            put(
                out,
                Entry::new(
                    label_arg("palette-go-to-offset-fmt", "offset", hex_string(target)),
                    Action::GoToOffset(target),
                ).with_icon(Icon::Crosshair).with_subtitle(Label::Text(dec_string(target))),
            );
        },
        Err(e) => invalid_entry(out, query, Label::Text(e.clone())),
    }
}

fn put_select_from(out: &mut Vec<Entry>, query: &str, typed: &TypedArgument, at: OffsetContext)
    ensures
        rows_view(final(out)@) == rows_view(old(out)@).push(select_from_row(*typed, query@, at)),
{
    match &typed.number {
        Ok(Number::Absolute(count)) => {
            let count: u64 = *count;
            if count == 0 {
                invalid_entry(out, query, Label::Text("count must be nonzero".to_owned()));
                return;
            }
            if at.source_len <= at.cursor {
                invalid_entry(out, query, Label::Text("at EOF".to_owned()));
                return;
            }
            let left: u64 = at.source_len - at.cursor;
            let taken: u64 = if count < left {
                count
            } else {
                left
            };
            let end: u64 = at.cursor + taken;
            let mut told = hex_string(at.cursor);
            told.append(" .. ");
            told.append(hex_string(end).as_str());
            put(
                out,
                Entry::new(
                    label_args2(
                        "palette-select-from-offset-fmt",
                        ("count", dec_string(taken)),
                        ("start", hex_string(at.cursor)),
                    ),
                    Action::SetSelection { start: at.cursor, end_exclusive: end },
                ).with_icon(Icon::ArrowsOutLineHorizontal).with_subtitle(Label::Text(told)),
            );
        },
        Ok(Number::Relative(_)) => invalid_entry(
            out,
            query,
            Label::Text("count must be absolute (no + / - prefix)".to_owned()),
        ),
        Err(e) => invalid_entry(out, query, Label::Text(e.clone())),
    }
}

fn put_select_range(out: &mut Vec<Entry>, query: &str, typed: &TypedArgument)
    ensures
        rows_view(final(out)@) == rows_view(old(out)@).push(select_range_row(*typed, query@)),
{
    match &typed.range {
        Ok(range) => {
            let start: u64 = range.0;
            let end: u64 = range.1;
            let len: u64 = if end >= start {
                end - start
            } else {
                0
            };
            put(
                out,
                Entry::new(
                    label_args3(
                        "palette-select-range-fmt",
                        ("start", hex_string(start)),
                        ("end", hex_string(end)),
                        ("count", dec_string(len)),
                    ),
                    Action::SetSelection { start, end_exclusive: end },
                ).with_icon(Icon::BracketsCurly),
            );
        },
        Err(e) => invalid_entry(out, query, Label::Text(e.clone())),
    }
}

/// Appends the rows of a mode that asks for an offset, a number of bytes or a
/// range.
pub fn build_offset_entries(
    out: &mut Vec<Entry>,
    mode: Mode,
    query: &str,
    typed: &TypedArgument,
    at: OffsetContext,
)
    ensures
        rows_view(final(out)@) == rows_view(old(out)@) + offset_rows(mode, query@, *typed, at),
{
    if query.unicode_len() == 0 {
        assert(rows_view(out@) =~= rows_view(old(out)@) + seq![]);
        return;
    }
    match mode {
        Mode::GoToOffset | Mode::GoToAddress => put_go_to(out, query, typed),
        Mode::SelectFromOffset => put_select_from(out, query, typed, at),
        Mode::SelectRange => put_select_range(out, query, typed),
        _ => {},
    }
    assert(rows_view(out@) =~= rows_view(old(out)@) + offset_rows(mode, query@, *typed, at));
}

/// The row for a number of columns. It has to be given without a sign and lie
/// within bounds.
pub open spec fn columns_row(typed: TypedArgument, query: Seq<char>, scope: ColumnScope)
    -> EntryView {
    match typed.number {
        Ok(Number::Absolute(n)) => if columns_allowed(n as int) {
            match scope {
                ColumnScope::Local => EntryView::new(
                    LabelView::Args(
                        "palette-set-columns-local-fmt"@,
                        seq![("count"@, dec(n as nat))],
                    ),
                    ActionView::SetColumns(scope, n as u16),
                ).icon(Icon::Columns),
                ColumnScope::Global => EntryView::new(
                    LabelView::Args(
                        "palette-set-columns-global-fmt"@,
                        seq![("count"@, dec(n as nat))],
                    ),
                    ActionView::SetColumns(scope, n as u16),
                ).icon(Icon::ColumnsPlusRight),
            }
        } else {
            invalid_row(
                query,
                LabelView::Args(
                    "palette-invalid-columns-range"@,
                    seq![("max"@, dec(MAX_COLUMNS as nat))],
                ),
            )
        },
        Ok(Number::Relative(_)) => invalid_row(
            query,
            LabelView::Text("column count must be absolute (no + / - prefix)"@),
        ),
        Err(e) => invalid_row(query, LabelView::Text(e@)),
    }
}

/// The rows of a mode that asks for a number of columns: none until something
/// is typed.
pub open spec fn columns_rows(mode: Mode, query: Seq<char>, typed: TypedArgument) -> Seq<
    EntryView,
> {
    if query.len() == 0 {
        seq![]
    } else {
        match mode {
            Mode::SetColumnsLocal => seq![columns_row(typed, query, ColumnScope::Local)],
            Mode::SetColumnsGlobal => seq![columns_row(typed, query, ColumnScope::Global)],
            _ => seq![],
        }
    }
}

fn put_columns(out: &mut Vec<Entry>, query: &str, typed: &TypedArgument, scope: ColumnScope)
    ensures
        rows_view(final(out)@) == rows_view(old(out)@).push(columns_row(*typed, query@, scope)),
{
    match &typed.number {
        Ok(Number::Absolute(n)) => {
            let n: u64 = *n;
            if n < MIN_COLUMNS as u64 || n > MAX_COLUMNS as u64 {
                invalid_entry(
                    out,
                    query,
                    label_arg(
                        "palette-invalid-columns-range",
                        "max",
                        dec_string(MAX_COLUMNS as u64),
                    ),
                );
                return;
            }
            let (key, icon) = match scope {
                ColumnScope::Local => ("palette-set-columns-local-fmt", Icon::Columns),
                ColumnScope::Global => ("palette-set-columns-global-fmt", Icon::ColumnsPlusRight),
            };
            put(
                out,
                Entry::new(
                    label_arg(key, "count", dec_string(n)),
                    Action::SetColumns { scope, count: n as u16 },
                ).with_icon(icon),
            );
        },
        Ok(Number::Relative(_)) => invalid_entry(
            out,
            query,
            Label::Text("column count must be absolute (no + / - prefix)".to_owned()),
        ),
        Err(e) => invalid_entry(out, query, Label::Text(e.clone())),
    }
}

/// Appends the rows of a mode that asks for a number of columns.
pub fn build_columns_entries(
    out: &mut Vec<Entry>,
    mode: Mode,
    query: &str,
    typed: &TypedArgument,
)
    ensures
        rows_view(final(out)@) == rows_view(old(out)@) + columns_rows(mode, query@, *typed),
{
    if query.unicode_len() == 0 {
        assert(rows_view(out@) =~= rows_view(old(out)@) + seq![]);
        return;
    }
    match mode {
        Mode::SetColumnsLocal => put_columns(out, query, typed, ColumnScope::Local),
        Mode::SetColumnsGlobal => put_columns(out, query, typed, ColumnScope::Global),
        _ => {},
    }
    assert(rows_view(out@) =~= rows_view(old(out)@) + columns_rows(mode, query@, *typed));
}

/// A number of columns that a row offers lies within the bounds that are told.
pub proof fn law_columns_row_in_bounds(typed: TypedArgument, query: Seq<char>, scope: ColumnScope)
    ensures
        columns_row(typed, query, scope).action matches ActionView::SetColumns(s, n) ==> s == scope
            && columns_allowed(n as int),
{
}

/// A selection that a row for a number of bytes offers starts at the caret,
/// has a byte at least, and ends within the file.
pub proof fn law_select_from_row_in_bounds(
    typed: TypedArgument,
    query: Seq<char>,
    at: OffsetContext,
)
    ensures
        select_from_row(typed, query, at).action matches ActionView::SetSelection(start, end)
            ==> start == at.cursor && start < end <= at.source_len,
{
}

/// The row for the answer to a plugin's question.
pub open spec fn prompt_row(prompt: PluginPrompt, answer: Seq<char>) -> EntryView {
    EntryView::new(
        if answer.len() == 0 {
            LabelView::Key("palette-plugin-prompt-empty"@)
        } else {
            LabelView::Text(answer)
        },
        ActionView::RespondToPlugin(prompt.plugin_name@, prompt.command_id@, answer),
    ).icon(Icon::ArrowBendDownLeft).subtitle(LabelView::Text(prompt.title@))
}

/// What the palette lists its rows from.
pub struct PaletteInputs {
    pub recents: Vec<RecentFile>,
    pub flags: PanelFlags,
    pub base: OffsetBase,
    pub lists: MainLists,
    /// Templates, those that fit the active file best first.
    pub ranked_templates: Vec<PathRow>,
    pub installed_templates: Vec<PathRow>,
    /// Installed plugins: first those that handle files, next those that run
    /// templates, each in order of their paths.
    pub installed_plugins: Vec<PathRow>,
    pub typed: TypedArgument,
    pub cascade: Option<PluginCascade>,
    pub prompt: Option<PluginPrompt>,
}

/// The rows of a mode. `query` is what was typed; blanks around it count for
/// nothing but in an answer to a plugin.
pub open spec fn rows_of(
    mode: Mode,
    query: Seq<char>,
    inputs: PaletteInputs,
    copy: Option<CopyContext>,
    h: HistoryContext,
    at: OffsetContext,
) -> Seq<EntryView> {
    let typed = trimmed(query);
    let no_file = seq![invalid_row(typed, LabelView::Key("palette-invalid-no-active-file"@))];
    match mode {
        Mode::Main => main_rows(
            inputs.recents@.len() > 0,
            inputs.flags,
            copy,
            h,
            at,
            inputs.base,
            inputs.lists,
        ),
        Mode::QuickOpen => inputs.lists.files@.map_values(|f: FileRow| file_row(f)),
        Mode::Templates => template_rows(inputs.ranked_templates@),
        Mode::Uninstall => path_rows(inputs.installed_templates@, PathUse::DeleteTemplate),
        Mode::UninstallPlugin => path_rows(inputs.installed_plugins@, PathUse::DeletePlugin),
        Mode::Recent => recent_rows(inputs.recents@, inputs.lists.files@),
        Mode::GoToOffset | Mode::GoToAddress | Mode::SelectFromOffset | Mode::SelectRange =>
            if at.available {
                offset_rows(mode, typed, inputs.typed, at)
            } else {
                no_file
            },
        Mode::SetColumnsLocal => if at.available {
            columns_rows(mode, typed, inputs.typed)
        } else {
            no_file
        },
        Mode::SetColumnsGlobal => columns_rows(mode, typed, inputs.typed),
        Mode::PluginCascade => match inputs.cascade {
            Some(c) => plugin_rows(c.plugin_name@, c.commands@, false),
            None => seq![],
        },
        Mode::PluginPrompt => match inputs.prompt {
            Some(p) => seq![prompt_row(p, query)],
            None => seq![],
        },
        Mode::SetVirtualBase | Mode::CompareSideA | Mode::CompareSideB => seq![],
    }
}

/// Lists the rows of a mode.
pub fn build_palette_entries(
    mode: Mode,
    query: &str,
    inputs: &PaletteInputs,
    copy: Option<CopyContext>,
    h: HistoryContext,
    at: OffsetContext,
) -> (r: Vec<Entry>)
    ensures
        rows_view(r@) == rows_of(mode, query@, *inputs, copy, h, at),
{
    let mut out: Vec<Entry> = Vec::new();
    assert(rows_view(out@) =~= seq![]);
    let typed = trim(query);
    match mode {
        Mode::Main => {
            return build_main(
                inputs.recents.len() > 0,
                inputs.flags,
                copy,
                h,
                at,
                inputs.base,
                &inputs.lists,
            );
        },
        Mode::QuickOpen => put_file_rows(&mut out, &inputs.lists.files),
        Mode::Templates => {
            put_path_rows(&mut out, &inputs.ranked_templates, PathUse::RunTemplate);
            assert(rows_view(out@) =~= path_rows(inputs.ranked_templates@, PathUse::RunTemplate));
            put(
                &mut out,
                Entry::new(
                    Label::Key("palette-install-template"),
                    Action::InstallTemplate,
                ).with_subtitle(Label::Key("palette-install-template-subtitle")).with_icon(
                    Icon::Download,
                ),
            );
            put(
                &mut out,
                Entry::into_mode("palette-uninstall-template", Icon::Trash, Mode::Uninstall),
            );
        },
        Mode::Uninstall => put_path_rows(
            &mut out,
            &inputs.installed_templates,
            PathUse::DeleteTemplate,
        ),
        Mode::UninstallPlugin => put_path_rows(
            &mut out,
            &inputs.installed_plugins,
            PathUse::DeletePlugin,
        ),
        Mode::Recent => {
            return build_recent(&inputs.recents, &inputs.lists.files);
        },
        Mode::GoToOffset | Mode::GoToAddress | Mode::SelectFromOffset | Mode::SelectRange => {
            if at.available {
                build_offset_entries(&mut out, mode, typed.as_str(), &inputs.typed, at);
            } else {
                invalid_entry(&mut out, typed.as_str(), Label::Key("palette-invalid-no-active-file"));
            }
        },
        Mode::SetColumnsLocal => {
            if at.available {
                build_columns_entries(&mut out, mode, typed.as_str(), &inputs.typed);
            } else {
                invalid_entry(&mut out, typed.as_str(), Label::Key("palette-invalid-no-active-file"));
            }
        },
        Mode::SetColumnsGlobal => build_columns_entries(&mut out, mode, typed.as_str(), &inputs.typed),
        Mode::PluginCascade => {
            if let Some(c) = &inputs.cascade {
                put_plugin_rows(&mut out, &c.plugin_name, &c.commands, false);
            }
        },
        Mode::PluginPrompt => {
            if let Some(p) = &inputs.prompt {
                let label = if query.unicode_len() == 0 {
                    Label::Key("palette-plugin-prompt-empty")
                } else {
                    Label::Text(query.to_owned())
                };
                put(
                    &mut out,
                    Entry::new(
                        label,
                        Action::RespondToPlugin {
                            plugin_name: p.plugin_name.clone(),
                            command_id: p.command_id.clone(),
                            answer: query.to_owned(),
                        },
                    ).with_icon(Icon::ArrowBendDownLeft).with_subtitle(
                        Label::Text(p.title.clone()),
                    ),
                );
            }
        },
        Mode::SetVirtualBase | Mode::CompareSideA | Mode::CompareSideB => {},
    }
    assert(rows_view(out@) =~= rows_of(mode, query@, *inputs, copy, h, at));
    out
}

/// With something typed, the row for a number of bytes selects exactly that many
/// from the caret on, or all that are left where there are fewer. A count of zero or
/// with a sign, the end of the file, or what is no number gives a row that does
/// nothing.
pub proof fn law_select_from_offset_counts_bytes(
    query: Seq<char>,
    inputs: PaletteInputs,
    copy: Option<CopyContext>,
    h: HistoryContext,
    at: OffsetContext,
)
    requires
        at.available,
        trimmed(query).len() > 0,
    ensures
        ({
            let rows = rows_of(Mode::SelectFromOffset, query, inputs, copy, h, at);
            let left = at.source_len - at.cursor;
            &&& rows.len() == 1
            &&& match inputs.typed.number {
                Ok(Number::Absolute(n)) => if n > 0 && left > 0 {
                    rows[0].action matches ActionView::SetSelection(start, end) && start
                        == at.cursor && (n <= left ==> end - start == n) && (n > left ==> end
                        == at.source_len) && rows[0].label == LabelView::Args(
                        "palette-select-from-offset-fmt"@,
                        seq![("count"@, dec((end - start) as nat)), ("start"@, hex_text(start))],
                    )
                } else {
                    rows[0].action is NoOp
                },
                _ => rows[0].action is NoOp,
            }
        }),
{
}

/// With something typed, the row for a range selects the range that was typed, the
/// row for an offset goes to the offset that was typed, and what cannot be read gives
/// a row that does nothing and shows what was typed.
pub proof fn law_typed_place_is_taken(
    query: Seq<char>,
    inputs: PaletteInputs,
    copy: Option<CopyContext>,
    h: HistoryContext,
    at: OffsetContext,
)
    requires
        at.available,
        trimmed(query).len() > 0,
    ensures
        ({
            let range = rows_of(Mode::SelectRange, query, inputs, copy, h, at);
            &&& range.len() == 1
            &&& match inputs.typed.range {
                Ok((start, end)) => range[0].action == ActionView::SetSelection(start, end),
                Err(_) => range[0].action is NoOp && range[0].subtitle == Some(
                    LabelView::Text(trimmed(query)),
                ),
            }
        }),
        ({
            let offset = rows_of(Mode::GoToOffset, query, inputs, copy, h, at);
            let address = rows_of(Mode::GoToAddress, query, inputs, copy, h, at);
            &&& offset.len() == 1 && address.len() == 1
            &&& match inputs.typed.target {
                Ok(target) => offset[0].action == ActionView::GoToOffset(target)
                    && address[0].action == ActionView::GoToOffset(target),
                Err(_) => offset[0].action is NoOp && address[0].action is NoOp,
            }
        }),
{
}

/// With something typed, the row for columns takes a number from one to sixty-four as
/// it was typed, for one file or for all as the mode says. Any other number, one with
/// a sign, and what is no number give a row that does nothing.
pub proof fn law_typed_columns_are_taken(
    query: Seq<char>,
    inputs: PaletteInputs,
    copy: Option<CopyContext>,
    h: HistoryContext,
    at: OffsetContext,
)
    requires
        at.available,
        trimmed(query).len() > 0,
    ensures
        ({
            let one = rows_of(Mode::SetColumnsLocal, query, inputs, copy, h, at);
            let all = rows_of(Mode::SetColumnsGlobal, query, inputs, copy, h, at);
            &&& one.len() == 1 && all.len() == 1
            &&& match inputs.typed.number {
                Ok(Number::Absolute(n)) => if 1 <= n <= 64 {
                    (one[0].action matches ActionView::SetColumns(scope, count) && scope is Local
                        && count == n) && (all[0].action matches ActionView::SetColumns(
                        scope,
                        count,
                    ) && scope is Global && count == n)
                } else {
                    one[0].action is NoOp && all[0].action is NoOp
                },
                _ => one[0].action is NoOp && all[0].action is NoOp,
            }
        }),
{
}

/// Until something is typed, a mode that asks for a place or a number lists nothing.
/// Without an active file, one that needs a file lists a row that does nothing.
pub proof fn law_nothing_typed_nothing_listed(
    mode: Mode,
    query: Seq<char>,
    inputs: PaletteInputs,
    copy: Option<CopyContext>,
    h: HistoryContext,
    at: OffsetContext,
)
    requires
        mode is GoToOffset || mode is GoToAddress || mode is SelectFromOffset || mode is SelectRange
            || mode is SetColumnsLocal,
    ensures
        at.available && trimmed(query).len() == 0 ==> rows_of(
            mode,
            query,
            inputs,
            copy,
            h,
            at,
        ).len() == 0,
        !at.available ==> rows_of(mode, query, inputs, copy, h, at).len() == 1 && rows_of(
            mode,
            query,
            inputs,
            copy,
            h,
            at,
        )[0].action is NoOp,
{
}

/// Each open file, template and installed plugin has its own row, which acts on that
/// very one and is named after it.
pub proof fn law_each_thing_has_its_row(
    query: Seq<char>,
    inputs: PaletteInputs,
    copy: Option<CopyContext>,
    h: HistoryContext,
    at: OffsetContext,
    i: int,
)
    ensures
        0 <= i < inputs.lists.files@.len() ==> {
            let rows = rows_of(Mode::QuickOpen, query, inputs, copy, h, at);
            &&& rows.len() == inputs.lists.files@.len()
            &&& rows[i].action == ActionView::FocusFile(inputs.lists.files@[i].id)
            &&& rows[i].label == LabelView::Text(inputs.lists.files@[i].name@)
        },
        0 <= i < inputs.ranked_templates@.len() ==> {
            let rows = rows_of(Mode::Templates, query, inputs, copy, h, at);
            &&& rows.len() == inputs.ranked_templates@.len() + 2
            &&& rows[i].action == ActionView::RunTemplate(inputs.ranked_templates@[i].path@)
            &&& rows[rows.len() - 2].action is InstallTemplate
            &&& rows[rows.len() - 1].action == ActionView::SwitchMode(Mode::Uninstall)
        },
        0 <= i < inputs.installed_templates@.len() ==> {
            let rows = rows_of(Mode::Uninstall, query, inputs, copy, h, at);
            &&& rows.len() == inputs.installed_templates@.len()
            &&& rows[i].action == ActionView::UninstallTemplate(
                inputs.installed_templates@[i].path@,
            )
        },
        0 <= i < inputs.installed_plugins@.len() ==> {
            let rows = rows_of(Mode::UninstallPlugin, query, inputs, copy, h, at);
            &&& rows.len() == inputs.installed_plugins@.len()
            &&& rows[i].action == ActionView::UninstallPlugin(inputs.installed_plugins@[i].path@)
        },
        inputs.cascade matches Some(c) ==> (0 <= i < c.commands@.len() ==> {
            let rows = rows_of(Mode::PluginCascade, query, inputs, copy, h, at);
            &&& rows.len() == c.commands@.len()
            &&& rows[i].action == ActionView::InvokePluginCommand(
                c.plugin_name@,
                c.commands@[i].id@,
            )
            &&& rows[i].label == LabelView::Text(c.commands@[i].label@)
        }),
        inputs.prompt matches Some(p) ==> {
            let rows = rows_of(Mode::PluginPrompt, query, inputs, copy, h, at);
            &&& rows.len() == 1
            &&& rows[0].action == ActionView::RespondToPlugin(
                p.plugin_name@,
                p.command_id@,
                query,
            )
        },
{
}

/// A file that was open before and is not open now has a row that opens it, after
/// those of the files before it in the list.
pub proof fn law_closed_recent_has_row(recents: Seq<RecentFile>, files: Seq<FileRow>, i: int)
    requires
        0 <= i < recents.len(),
        forall|k: int|
            0 <= k < files.len() ==> !((#[trigger] files[k]).path matches Some(p) && p@
                == recents[i].path@),
    ensures
        exists|k: int|
            0 <= k < recent_rows(recents, files).len() && (#[trigger] recent_rows(
                recents,
                files,
            )[k]).action == ActionView::OpenRecent(recents[i].path@),
    decreases recents.len(),
{
    let before = recent_rows(recents.drop_last(), files);
    let all = recent_rows(recents, files);
    assert(!path_open(files, recents[i].path@));
    if i == recents.len() - 1 {
        assert(all[before.len() as int].action == ActionView::OpenRecent(recents[i].path@));
    } else {
        law_closed_recent_has_row(recents.drop_last(), files, i);
        let k = choose|k: int|
            0 <= k < before.len() && (#[trigger] before[k]).action == ActionView::OpenRecent(
                recents[i].path@,
            );
        assert(all[k] == before[k]);
    }
}

/// A row of the recent files opens one of them that is not open.
pub proof fn law_recent_row_is_recent(recents: Seq<RecentFile>, files: Seq<FileRow>, k: int)
    requires
        0 <= k < recent_rows(recents, files).len(),
    ensures
        exists|i: int|
            0 <= i < recents.len() && recent_rows(recents, files)[k].action
                == ActionView::OpenRecent((#[trigger] recents[i]).path@) && forall|j: int|
                0 <= j < files.len() ==> !((#[trigger] files[j]).path matches Some(p) && p@
                    == recents[i].path@),
    decreases recents.len(),
{
    let init = recents.drop_last();
    let before = recent_rows(init, files);
    if k < before.len() {
        law_recent_row_is_recent(init, files, k);
        let i = choose|i: int|
            0 <= i < init.len() && before[k].action == ActionView::OpenRecent(
                (#[trigger] init[i]).path@,
            ) && forall|j: int|
                0 <= j < files.len() ==> !((#[trigger] files[j]).path matches Some(p) && p@
                    == init[i].path@);
        assert(recents[i] == init[i]);
    } else {
        let i = recents.len() - 1;
        assert(recents[i] == recents.last());
        assert forall|j: int| 0 <= j < files.len() implies !((#[trigger] files[j]).path matches Some(
            p,
        ) && p@ == recents[i].path@) by {
            if files[j].path matches Some(p) && p@ == recents[i].path@ {
                assert(path_open(files, recents[i].path@));
            }
        }
    }
}

/// Whether rows have one with a label, a subtitle and an action.
#[verifier::opaque]
pub open spec fn has_row(
    rows: Seq<EntryView>,
    label: LabelView,
    subtitle: Option<LabelView>,
    action: ActionView,
) -> bool {
    exists|k: int|
        0 <= k < rows.len() && (#[trigger] rows[k]).label == label && rows[k].subtitle == subtitle
            && rows[k].action == action
}

/// Whether rows have one with a message's key for a label and a command for an
/// action, and no subtitle.
pub open spec fn has_command(rows: Seq<EntryView>, key: Seq<char>, c: PaletteCommand) -> bool {
    has_row(rows, LabelView::Key(key), None, ActionView::InvokeCommand(c))
}

/// Whether rows have one with a message's key for a label that leads into a mode.
pub open spec fn has_mode(rows: Seq<EntryView>, key: Seq<char>, mode: Mode) -> bool {
    has_row(rows, LabelView::Key(key), None, ActionView::SwitchMode(mode))
}

proof fn lemma_row_pushed()
    ensures
        forall|rows: Seq<EntryView>, e: EntryView, l: LabelView, s: Option<LabelView>, a: ActionView|
            #[trigger] has_row(rows.push(e), l, s, a) == (has_row(rows, l, s, a) || (e.label == l
                && e.subtitle == s && e.action == a)),
        forall|l: LabelView, s: Option<LabelView>, a: ActionView|
            !#[trigger] has_row(seq![], l, s, a),
{
    reveal(has_row);
    assert forall|rows: Seq<EntryView>, e: EntryView, l: LabelView, s: Option<LabelView>, a: ActionView|
        #[trigger] has_row(rows.push(e), l, s, a) == (has_row(rows, l, s, a) || (e.label == l
            && e.subtitle == s && e.action == a)) by {
        let more = rows.push(e);
        if has_row(rows, l, s, a) {
            let k = choose|k: int|
                0 <= k < rows.len() && (#[trigger] rows[k]).label == l && rows[k].subtitle == s
                    && rows[k].action == a;
            assert(more[k] == rows[k]);
        }
        if e.label == l && e.subtitle == s && e.action == a {
            assert(more[rows.len() as int] == e);
        }
        if has_row(more, l, s, a) {
            let k = choose|k: int|
                0 <= k < more.len() && (#[trigger] more[k]).label == l && more[k].subtitle == s
                    && more[k].action == a;
            if k < rows.len() {
                assert(rows[k] == more[k]);
            }
        }
    }
}

proof fn lemma_rows_joined(
    x: Seq<EntryView>,
    y: Seq<EntryView>,
    l: LabelView,
    s: Option<LabelView>,
    a: ActionView,
)
    ensures
        has_row(x + y, l, s, a) == (has_row(x, l, s, a) || has_row(y, l, s, a)),
{
    reveal(has_row);
    let all = x + y;
    if has_row(x, l, s, a) {
        let k = choose|k: int|
            0 <= k < x.len() && (#[trigger] x[k]).label == l && x[k].subtitle == s && x[k].action
                == a;
        assert(all[k] == x[k]);
    }
    if has_row(y, l, s, a) {
        let k = choose|k: int|
            0 <= k < y.len() && (#[trigger] y[k]).label == l && y[k].subtitle == s && y[k].action
                == a;
        assert(all[x.len() + k] == y[k]);
    }
    if has_row(all, l, s, a) {
        let k = choose|k: int|
            0 <= k < all.len() && (#[trigger] all[k]).label == l && all[k].subtitle == s
                && all[k].action == a;
        if k < x.len() {
            assert(x[k] == all[k]);
        } else {
            assert(y[k - x.len()] == all[k]);
        }
    }
}

proof fn lemma_plugin_rows_are_plugins(plugins: Seq<PluginRow>)
    ensures
        forall|k: int|
            0 <= k < all_plugin_rows(plugins).len() ==> (#[trigger] all_plugin_rows(
                plugins,
            )[k]).action is InvokePluginCommand,
    decreases plugins.len(),
{
    if plugins.len() > 0 {
        lemma_plugin_rows_are_plugins(plugins.drop_last());
    }
}

/// The rows of the main list before those for copies, files and plugins.
pub open spec fn command_rows(
    has_recent: bool,
    flags: PanelFlags,
    h: HistoryContext,
    at: OffsetContext,
    base: OffsetBase,
) -> Seq<EntryView> {
    let fixed = edit_rows(
        mode_rows(panel_rows(open_rows(seq![], has_recent), flags), h.has_active_file),
        h,
    );
    let numbers = if h.has_active_file {
        number_rows(fixed, at, base)
    } else {
        fixed
    };
    pane_rows(split_rows(numbers))
}

proof fn lemma_main_tail(
    has_recent: bool,
    flags: PanelFlags,
    copy: Option<CopyContext>,
    h: HistoryContext,
    at: OffsetContext,
    base: OffsetBase,
    lists: MainLists,
    l: LabelView,
    s: Option<LabelView>,
    a: ActionView,
)
    requires
        a is InvokeCommand || a is SwitchMode,
    ensures
        has_row(main_rows(has_recent, flags, copy, h, at, base, lists), l, s, a) == has_row(
            command_rows(has_recent, flags, h, at, base),
            l,
            s,
            a,
        ),
{
    let panes = command_rows(has_recent, flags, h, at, base);
    let bytes = lists.copy_bytes@.map_values(|r: CopyRow| copy_bytes_row(r));
    let values = lists.copy_values@.map_values(|r: CopyRow| copy_value_row(r));
    let files = lists.files@.map_values(|f: FileRow| file_row(f));
    let plugins = all_plugin_rows(lists.plugins@);
    let copies = match copy {
        Some(c) => if c.scalar_width {
            panes + bytes + values
        } else {
            panes + bytes
        },
        None => panes,
    };
    assert(main_rows(has_recent, flags, copy, h, at, base, lists) == copies + files + plugins);
    lemma_plugin_rows_are_plugins(lists.plugins@);
    lemma_rows_joined(panes, bytes, l, s, a);
    lemma_rows_joined(panes + bytes, values, l, s, a);
    lemma_rows_joined(copies, files, l, s, a);
    lemma_rows_joined(copies + files, plugins, l, s, a);
    assert(!has_row(bytes, l, s, a) && !has_row(values, l, s, a) && !has_row(files, l, s, a)
        && !has_row(plugins, l, s, a)) by {
        reveal(has_row);
    }
}

proof fn lemma_main_commands(
    query: Seq<char>,
    inputs: PaletteInputs,
    copy: Option<CopyContext>,
    h: HistoryContext,
    at: OffsetContext,
)
    ensures
        forall|l: LabelView, s: Option<LabelView>, a: ActionView|
            a is InvokeCommand || a is SwitchMode ==> #[trigger] has_row(
                rows_of(Mode::Main, query, inputs, copy, h, at),
                l,
                s,
                a,
            ) == has_row(
                command_rows(inputs.recents@.len() > 0, inputs.flags, h, at, inputs.base),
                l,
                s,
                a,
            ),
{
    assert forall|l: LabelView, s: Option<LabelView>, a: ActionView|
        a is InvokeCommand || a is SwitchMode implies #[trigger] has_row(
        rows_of(Mode::Main, query, inputs, copy, h, at),
        l,
        s,
        a,
    ) == has_row(
        command_rows(inputs.recents@.len() > 0, inputs.flags, h, at, inputs.base),
        l,
        s,
        a,
    ) by {
        lemma_main_tail(
            inputs.recents@.len() > 0,
            inputs.flags,
            copy,
            h,
            at,
            inputs.base,
            inputs.lists,
            l,
            s,
            a,
        );
    }
}

/// The main list offers what can be done to the active file where it can be done,
/// and only there: undo, redo and paste, lock and unlock, and places to go to.
#[verifier::rlimit(60)]
#[verifier::spinoff_prover]
pub proof fn law_main_list_offers_what_can_be_done(
    query: Seq<char>,
    inputs: PaletteInputs,
    copy: Option<CopyContext>,
    h: HistoryContext,
    at: OffsetContext,
)
    ensures
        ({
            let rows = rows_of(Mode::Main, query, inputs, copy, h, at);
            &&& has_command(rows, "menu-edit-undo"@, PaletteCommand::Undo) <==> h.can_undo
            &&& has_command(rows, "menu-edit-redo"@, PaletteCommand::Redo) <==> h.can_redo
            &&& has_command(rows, "menu-edit-paste"@, PaletteCommand::Paste) <==> h.can_paste
            &&& has_command(rows, "menu-edit-paste-as-hex"@, PaletteCommand::PasteAsHex)
                <==> h.can_paste
            &&& has_mode(rows, "palette-go-to-offset-entry"@, Mode::GoToOffset)
                <==> h.has_active_file
            &&& has_mode(rows, "palette-select-from-offset-entry"@, Mode::SelectFromOffset)
                <==> h.has_active_file
            &&& has_mode(rows, "palette-select-range-entry"@, Mode::SelectRange)
                <==> h.has_active_file
            &&& has_mode(rows, "palette-set-columns-local-entry"@, Mode::SetColumnsLocal)
                <==> h.has_active_file
            &&& has_mode(rows, "palette-set-columns-global-entry"@, Mode::SetColumnsGlobal)
            &&& has_mode(rows, "palette-open-recent-entry"@, Mode::Recent)
                <==> inputs.recents@.len() > 0
        }),
{
    lemma_row_pushed();
    lemma_main_commands(query, inputs, copy, h, at);
}

/// The main list always offers new files, archives and panes, each direction under
/// its own label.
#[verifier::rlimit(60)]
#[verifier::spinoff_prover]
pub proof fn law_main_list_always_offers_panes(
    query: Seq<char>,
    inputs: PaletteInputs,
    copy: Option<CopyContext>,
    h: HistoryContext,
    at: OffsetContext,
)
    ensures
        ({
            let rows = rows_of(Mode::Main, query, inputs, copy, h, at);
            &&& has_command(rows, "menu-file-new"@, PaletteCommand::NewFile)
            &&& has_command(rows, "toolbar-open-file"@, PaletteCommand::OpenFile)
            &&& has_command(rows, "toolbar-browse-vfs"@, PaletteCommand::BrowseArchive)
            &&& has_command(rows, "palette-split-right"@, PaletteCommand::SplitRight)
            &&& has_command(rows, "palette-split-left"@, PaletteCommand::SplitLeft)
            &&& has_command(rows, "palette-split-down"@, PaletteCommand::SplitDown)
            &&& has_command(rows, "palette-split-up"@, PaletteCommand::SplitUp)
            &&& has_command(rows, "palette-merge-right"@, PaletteCommand::MergeRight)
            &&& has_command(rows, "palette-merge-left"@, PaletteCommand::MergeLeft)
            &&& has_command(rows, "palette-merge-down"@, PaletteCommand::MergeDown)
            &&& has_command(rows, "palette-merge-up"@, PaletteCommand::MergeUp)
            &&& has_command(rows, "palette-move-tab-right"@, PaletteCommand::MoveTabRight)
            &&& has_command(rows, "palette-move-tab-left"@, PaletteCommand::MoveTabLeft)
            &&& has_command(rows, "palette-move-tab-down"@, PaletteCommand::MoveTabDown)
            &&& has_command(rows, "palette-move-tab-up"@, PaletteCommand::MoveTabUp)
            &&& has_row(
                rows,
                LabelView::Key("palette-move-tab-visual"@),
                Some(LabelView::Key("palette-pane-pick-subtitle"@)),
                ActionView::InvokeCommand(PaletteCommand::MoveTabVisual),
            )
            &&& has_row(
                rows,
                LabelView::Key("palette-merge-visual"@),
                Some(LabelView::Key("palette-pane-pick-subtitle"@)),
                ActionView::InvokeCommand(PaletteCommand::MergeVisual),
            )
            &&& has_row(
                rows,
                LabelView::Key("palette-focus-pane"@),
                Some(LabelView::Key("palette-pane-pick-subtitle"@)),
                ActionView::InvokeCommand(PaletteCommand::FocusPane),
            )
        }),
{
    lemma_row_pushed();
    lemma_main_commands(query, inputs, copy, h, at);
}

/// The row of a panel in the main list says that it hides the panel while it is shown,
/// and that it shows it while it is hidden. The row that locks the active file says
/// what it makes of it.
#[verifier::rlimit(60)]
#[verifier::spinoff_prover]
pub proof fn law_main_list_tells_what_a_toggle_does(
    query: Seq<char>,
    inputs: PaletteInputs,
    copy: Option<CopyContext>,
    h: HistoryContext,
    at: OffsetContext,
)
    ensures
        ({
            let rows = rows_of(Mode::Main, query, inputs, copy, h, at);
            &&& has_row(
                rows,
                LabelView::Key("menu-view-console"@),
                Some(
                    LabelView::Key(
                        if inputs.flags.console {
                            "palette-subtitle-hide"@
                        } else {
                            "palette-subtitle-show"@
                        },
                    ),
                ),
                ActionView::InvokeCommand(PaletteCommand::ToggleConsole),
            )
            &&& has_row(
                rows,
                LabelView::Key("menu-view-inspector"@),
                Some(
                    LabelView::Key(
                        if inputs.flags.inspector {
                            "palette-subtitle-hide"@
                        } else {
                            "palette-subtitle-show"@
                        },
                    ),
                ),
                ActionView::InvokeCommand(PaletteCommand::ToggleInspector),
            )
            &&& has_row(
                rows,
                LabelView::Key("menu-view-plugins"@),
                Some(
                    LabelView::Key(
                        if inputs.flags.plugins {
                            "palette-subtitle-hide"@
                        } else {
                            "palette-subtitle-show"@
                        },
                    ),
                ),
                ActionView::InvokeCommand(PaletteCommand::TogglePlugins),
            )
            &&& has_row(
                rows,
                LabelView::Text("Toggle VFS panel"@),
                Some(
                    LabelView::Key(
                        if inputs.flags.workspace_tree {
                            "palette-subtitle-hide"@
                        } else {
                            "palette-subtitle-show"@
                        },
                    ),
                ),
                ActionView::InvokeCommand(PaletteCommand::ToggleWorkspaceVfs),
            )
            &&& has_row(
                rows,
                LabelView::Text("Toggle tool panel"@),
                Some(
                    LabelView::Key(
                        if inputs.flags.tool_panel {
                            "palette-subtitle-hide"@
                        } else {
                            "palette-subtitle-show"@
                        },
                    ),
                ),
                ActionView::InvokeCommand(PaletteCommand::ToggleToolPanel),
            )
            &&& has_row(
                rows,
                LabelView::Key("palette-toggle-readonly"@),
                Some(LabelView::Key("palette-toggle-readonly-result-readonly"@)),
                ActionView::InvokeCommand(PaletteCommand::ToggleEditMode),
            ) <== h.has_active_file && h.can_paste
            &&& has_row(
                rows,
                LabelView::Key("palette-toggle-readonly"@),
                Some(LabelView::Key("palette-toggle-readonly-result-mutable"@)),
                ActionView::InvokeCommand(PaletteCommand::ToggleEditMode),
            ) <== h.has_active_file && !h.can_paste
        }),
{
    lemma_row_pushed();
    lemma_main_commands(query, inputs, copy, h, at);
}

/// The commands of plugins are listed plugin by plugin, each under the name of its
/// plugin and its own, and picking one runs that command of that plugin.
pub proof fn law_plugin_commands_are_listed(plugins: Seq<PluginRow>, p: PluginRow, i: int)
    ensures
        all_plugin_rows(seq![]).len() == 0,
        all_plugin_rows(plugins.push(p)).len() == all_plugin_rows(plugins).len()
            + p.commands@.len(),
        all_plugin_rows(plugins.push(p)).take(all_plugin_rows(plugins).len() as int)
            == all_plugin_rows(plugins),
        0 <= i < p.commands@.len() ==> {
            let row = all_plugin_rows(plugins.push(p))[all_plugin_rows(plugins).len() + i];
            &&& row.action == ActionView::InvokePluginCommand(p.name@, p.commands@[i].id@)
            &&& row.label == LabelView::Text(p.name@ + ": "@ + p.commands@[i].label@)
            &&& !row.disabled
        },
{
    assert(plugins.push(p).drop_last() =~= plugins);
    assert(all_plugin_rows(plugins.push(p)).take(all_plugin_rows(plugins).len() as int)
        =~= all_plugin_rows(plugins));
}

} // verus!

//! The rows that the palette lists in the browser, where there are no plugins,
//! no templates and no files on disk.

use vstd::prelude::*;
use vstd::string::*;
use crate::labels::{label_arg, Icon, Label, Shortcut};
#[allow(unused_imports)]
use crate::labels::LabelView;
use crate::palette::{put, Action, Entry, Mode, PaletteCommand};
#[allow(unused_imports)]
use crate::palette::{rows_view, ActionView, EntryView};
use crate::palette_rows::{
    build_columns_entries, build_offset_entries, hex_string, invalid_entry, OffsetContext,
    TypedArgument,
};
#[allow(unused_imports)]
use crate::palette_rows::{columns_rows, hex_text, invalid_row, offset_rows};
use crate::session::OpenFile;
use crate::text::{trim, trim_start};
#[allow(unused_imports)]
use crate::text::{front_trimmed, trimmed};

verus! {

/// What the rows of the main list depend on.
#[derive(Clone, Copy, Debug, PartialEq, Eq, Structural)]
pub struct WebContext {
    /// Whether a file was focused.
    pub has_active: bool,
    /// Whether a tab was closed that can be opened again.
    pub has_closed: bool,
    /// Whether bytes of the active file are selected.
    pub has_selection: bool,
    /// Address of the active file's first byte.
    pub virtual_base: Option<u64>,
    /// Whether the active file can be mounted.
    pub has_handler: bool,
    pub has_workspaces: bool,
    /// Whether there are two files to compare.
    pub several_files: bool,
}

/// Rows for files.
pub open spec fn web_file_rows(acc: Seq<EntryView>, c: WebContext) -> Seq<EntryView> {
    let first = acc.push(
        EntryView::new(
            LabelView::Key("menu-file-new"@),
            ActionView::InvokeCommand(PaletteCommand::NewFile),
        ).shortcut(Shortcut::NewFile),
    ).push(
        EntryView::new(
            LabelView::Key("toolbar-open-file"@),
            ActionView::InvokeCommand(PaletteCommand::OpenFile),
        ),
    ).push(
        EntryView::command(
            "palette-save-as-download"@,
            Icon::Download,
            PaletteCommand::SaveAsDownload,
        ).disabled(!c.has_active),
    ).push(
        EntryView::new(
            LabelView::Key("menu-file-reopen-closed"@),
            ActionView::InvokeCommand(PaletteCommand::ReopenClosedTab),
        ).shortcut(Shortcut::ReopenClosed).disabled(!c.has_closed),
    ).push(
        EntryView::new(
            LabelView::Key("palette-toggle-readonly"@),
            ActionView::InvokeCommand(PaletteCommand::ToggleEditMode),
        ).shortcut(Shortcut::ToggleEditMode).disabled(!c.has_active),
    ).push(
        EntryView::new(
            LabelView::Text("Toggle search bar"@),
            ActionView::InvokeCommand(PaletteCommand::FindStringsWholeFile),
        ).shortcut(Shortcut::FindLocal).disabled(!c.has_active),
    ).push(
        EntryView::new(
            LabelView::Key("palette-copy-caret-offset"@),
            ActionView::InvokeCommand(PaletteCommand::CopyCaretOffset),
        ).shortcut(Shortcut::CopyBytes).disabled(!c.has_active),
    );
    let second = if c.has_selection {
        first.push(
            EntryView::new(
                LabelView::Key("palette-copy-selection-range"@),
                ActionView::InvokeCommand(PaletteCommand::CopySelectionRange),
            ).shortcut(Shortcut::CopyHex),
        )
    } else {
        first
    };
    second
}

fn put_web_file_rows(out: &mut Vec<Entry>, c: WebContext)
    ensures
        rows_view(final(out)@) == web_file_rows(rows_view(old(out)@), c),
{
    put(
        out,
        Entry::new(
            Label::Key("menu-file-new"),
            Action::InvokeCommand(PaletteCommand::NewFile),
        ).with_shortcut(Shortcut::NewFile),
    );
    put(
        out,
        Entry::new(
            Label::Key("toolbar-open-file"),
            Action::InvokeCommand(PaletteCommand::OpenFile),
        ),
    );
    put(
        out,
        Entry::command(
            "palette-save-as-download",
            Icon::Download,
            PaletteCommand::SaveAsDownload,
        ).with_disabled(!c.has_active),
    );
    put(
        out,
        Entry::new(
            Label::Key("menu-file-reopen-closed"),
            Action::InvokeCommand(PaletteCommand::ReopenClosedTab),
        ).with_shortcut(Shortcut::ReopenClosed).with_disabled(!c.has_closed),
    );
    put(
        out,
        Entry::new(
            Label::Key("palette-toggle-readonly"),
            Action::InvokeCommand(PaletteCommand::ToggleEditMode),
        ).with_shortcut(Shortcut::ToggleEditMode).with_disabled(!c.has_active),
    );
    put(
        out,
        Entry::new(
            Label::Text("Toggle search bar".to_owned()),
            Action::InvokeCommand(PaletteCommand::FindStringsWholeFile),
        ).with_shortcut(Shortcut::FindLocal).with_disabled(!c.has_active),
    );
    put(
        out,
        Entry::new(
            Label::Key("palette-copy-caret-offset"),
            Action::InvokeCommand(PaletteCommand::CopyCaretOffset),
        ).with_shortcut(Shortcut::CopyBytes).with_disabled(!c.has_active),
    );
    if c.has_selection {
        put(
            out,
            Entry::new(
                Label::Key("palette-copy-selection-range"),
                Action::InvokeCommand(PaletteCommand::CopySelectionRange),
            ).with_shortcut(Shortcut::CopyHex),
        );
    }
}

/// Rows for tools and panels.
pub open spec fn web_tool_rows(acc: Seq<EntryView>, c: WebContext) -> Seq<EntryView> {
    acc.push(
        EntryView::command(
            "palette-strings-whole-file"@,
            Icon::TextAa,
            PaletteCommand::FindStringsWholeFile,
        ).disabled(!c.has_active),
    ).push(
        EntryView::command(
            "palette-checksums-whole-file"@,
            Icon::Fingerprint,
            PaletteCommand::CalculateChecksumsWholeFile,
        ).disabled(!c.has_active),
    ).push(
        EntryView::command(
            "palette-compute-entropy"@,
            Icon::ChartLine,
            PaletteCommand::ComputeEntropy,
        ).disabled(!c.has_active),
    ).push(
        EntryView::command(
            "palette-tool-show-inspector"@,
            Icon::MagnifyingGlass,
            PaletteCommand::ToggleInspector,
        ),
    ).push(
        EntryView::command(
            "palette-tool-show-memory"@,
            Icon::Memory,
            PaletteCommand::ToggleMemory,
        ),
    ).push(
        EntryView::command(
            "palette-tool-show-console"@,
            Icon::TerminalWindow,
            PaletteCommand::ToggleConsole,
        ),
    ).push(
        EntryView::command(
            "palette-tool-show-settings"@,
            Icon::Gear,
            PaletteCommand::ToggleSettings,
        ),
    ).push(
        EntryView::command("palette-toggle-vim"@, Icon::Keyboard, PaletteCommand::ToggleVim),
    ).push(
        EntryView::command(
            "palette-compare-files"@,
            Icon::ArrowsLeftRight,
            PaletteCommand::CompareFiles,
        ).disabled(!c.several_files),
    )
}

fn put_web_tool_rows(out: &mut Vec<Entry>, c: WebContext)
    ensures
        rows_view(final(out)@) == web_tool_rows(rows_view(old(out)@), c),
{
    put(
        out,
        Entry::command(
            "palette-strings-whole-file",
            Icon::TextAa,
            PaletteCommand::FindStringsWholeFile,
        ).with_disabled(!c.has_active),
    );
    put(
        out,
        Entry::command(
            "palette-checksums-whole-file",
            Icon::Fingerprint,
            PaletteCommand::CalculateChecksumsWholeFile,
        ).with_disabled(!c.has_active),
    );
    put(
        out,
        Entry::command(
            "palette-compute-entropy",
            Icon::ChartLine,
            PaletteCommand::ComputeEntropy,
        ).with_disabled(!c.has_active),
    );
    put(
        out,
        Entry::command(
            "palette-tool-show-inspector",
            Icon::MagnifyingGlass,
            PaletteCommand::ToggleInspector,
        ),
    );
    put(
        out,
        Entry::command("palette-tool-show-memory", Icon::Memory, PaletteCommand::ToggleMemory),
    );
    put(
        out,
        Entry::command(
            "palette-tool-show-console",
            Icon::TerminalWindow,
            PaletteCommand::ToggleConsole,
        ),
    );
    put(
        out,
        Entry::command("palette-tool-show-settings", Icon::Gear, PaletteCommand::ToggleSettings),
    );
    put(out, Entry::command("palette-toggle-vim", Icon::Keyboard, PaletteCommand::ToggleVim));
    put(
        out,
        Entry::command(
            "palette-compare-files",
            Icon::ArrowsLeftRight,
            PaletteCommand::CompareFiles,
        ).with_disabled(!c.several_files),
    );
}

/// Rows that edit the active file, and tools for what is selected.
pub open spec fn web_edit_rows(acc: Seq<EntryView>, c: WebContext) -> Seq<EntryView> {
    let first = acc.push(
        EntryView::command(
            "palette-undo"@,
            Icon::ArrowCounterClockwise,
            PaletteCommand::Undo,
        ).shortcut(Shortcut::Undo).disabled(!c.has_active),
    ).push(
        EntryView::command(
            "palette-redo"@,
            Icon::ArrowClockwise,
            PaletteCommand::Redo,
        ).shortcut(Shortcut::Redo).disabled(!c.has_active),
    ).push(
        EntryView::command(
            "palette-paste"@,
            Icon::Clipboard,
            PaletteCommand::Paste,
        ).shortcut(Shortcut::Paste).disabled(!c.has_active),
    ).push(
        EntryView::command(
            "palette-paste-as-hex"@,
            Icon::ClipboardText,
            PaletteCommand::PasteAsHex,
        ).shortcut(Shortcut::PasteAsHex).disabled(!c.has_active),
    );
    let second = if c.has_selection {
        first.push(
            EntryView::command(
                "palette-strings-selection"@,
                Icon::TextAa,
                PaletteCommand::FindStringsSelection,
            ),
        )
    } else {
        first
    };
    let third = if c.has_selection {
        second.push(
            EntryView::command(
                "palette-checksums-selection"@,
                Icon::Fingerprint,
                PaletteCommand::CalculateChecksumsSelection,
            ),
        )
    } else {
        second
    };
    let fourth = if c.has_handler {
        third.push(
            EntryView::command(
                "palette-browse-vfs"@,
                Icon::TreeStructure,
                PaletteCommand::BrowseArchive,
            ),
        )
    } else {
        third
    };
    let fifth = if c.has_workspaces {
        fourth.push(
            EntryView::command(
                "palette-toggle-workspace-vfs"@,
                Icon::TreeStructure,
                PaletteCommand::ToggleWorkspaceVfs,
            ),
        )
    } else {
        fourth
    };
    fifth
}

fn put_web_edit_rows(out: &mut Vec<Entry>, c: WebContext)
    ensures
        rows_view(final(out)@) == web_edit_rows(rows_view(old(out)@), c),
{
    put(
        out,
        Entry::command(
            "palette-undo",
            Icon::ArrowCounterClockwise,
            PaletteCommand::Undo,
        ).with_shortcut(Shortcut::Undo).with_disabled(!c.has_active),
    );
    put(
        out,
        Entry::command(
            "palette-redo",
            Icon::ArrowClockwise,
            PaletteCommand::Redo,
        ).with_shortcut(Shortcut::Redo).with_disabled(!c.has_active),
    );
    put(
        out,
        Entry::command(
            "palette-paste",
            Icon::Clipboard,
            PaletteCommand::Paste,
        ).with_shortcut(Shortcut::Paste).with_disabled(!c.has_active),
    );
    put(
        out,
        Entry::command(
            "palette-paste-as-hex",
            Icon::ClipboardText,
            PaletteCommand::PasteAsHex,
        ).with_shortcut(Shortcut::PasteAsHex).with_disabled(!c.has_active),
    );
    if c.has_selection {
        put(
            out,
            Entry::command(
                "palette-strings-selection",
                Icon::TextAa,
                PaletteCommand::FindStringsSelection,
            ),
        );
    }
    if c.has_selection {
        put(
            out,
            Entry::command(
                "palette-checksums-selection",
                Icon::Fingerprint,
                PaletteCommand::CalculateChecksumsSelection,
            ),
        );
    }
    if c.has_handler {
        put(
            out,
            Entry::command(
                "palette-browse-vfs",
                Icon::TreeStructure,
                PaletteCommand::BrowseArchive,
            ),
        );
    }
    if c.has_workspaces {
        put(
            out,
            Entry::command(
                "palette-toggle-workspace-vfs",
                Icon::TreeStructure,
                PaletteCommand::ToggleWorkspaceVfs,
            ),
        );
    }
}

/// Rows that lead into other modes, and rows that copy lengths.
pub open spec fn web_mode_rows(acc: Seq<EntryView>, c: WebContext) -> Seq<EntryView> {
    let first = if c.has_active {
        acc.push(
            EntryView::into_mode(
                "palette-go-to-offset-entry"@,
                Icon::Crosshair,
                Mode::GoToOffset,
            ),
        )
    } else {
        acc
    };
    let second = if c.has_active && c.virtual_base.is_some() {
        first.push(
            EntryView::into_mode(
                "palette-go-to-address-entry"@,
                Icon::CrosshairSimple,
                Mode::GoToAddress,
            ),
        )
    } else {
        first
    };
    let third = if c.has_active {
        second.push(
            EntryView::into_mode(
                "palette-select-from-offset-entry"@,
                Icon::ArrowsOutLineHorizontal,
                Mode::SelectFromOffset,
            ),
        )
    } else {
        second
    };
    let fourth = if c.has_active {
        third.push(
            EntryView::into_mode(
                "palette-select-range-entry"@,
                Icon::BracketsCurly,
                Mode::SelectRange,
            ),
        )
    } else {
        third
    };
    let fifth = if c.has_active {
        fourth.push(
            EntryView::into_mode(
                "palette-set-columns-local-entry"@,
                Icon::Columns,
                Mode::SetColumnsLocal,
            ),
        )
    } else {
        fourth
    };
    let sixth = if c.has_active {
        fifth.push(
            EntryView::command(
                "palette-copy-file-length"@,
                Icon::Ruler,
                PaletteCommand::CopyFileLength,
            ),
        )
    } else {
        fifth
    };
    let seventh = if c.has_active && c.has_selection {
        sixth.push(
            EntryView::command(
                "palette-copy-selection-length"@,
                Icon::Ruler,
                PaletteCommand::CopySelectionLength,
            ),
        )
    } else {
        sixth
    };
    seventh.push(
        EntryView::into_mode(
            "palette-set-columns-global-entry"@,
            Icon::ColumnsPlusRight,
            Mode::SetColumnsGlobal,
        ),
    )
}

fn put_web_mode_rows(out: &mut Vec<Entry>, c: WebContext)
    ensures
        rows_view(final(out)@) == web_mode_rows(rows_view(old(out)@), c),
{
    if c.has_active {
        put(
            out,
            Entry::into_mode("palette-go-to-offset-entry", Icon::Crosshair, Mode::GoToOffset),
        );
    }
    if c.has_active && c.virtual_base.is_some() {
        put(
            out,
            Entry::into_mode(
                "palette-go-to-address-entry",
                Icon::CrosshairSimple,
                Mode::GoToAddress,
            ),
        );
    }
    if c.has_active {
        put(
            out,
            Entry::into_mode(
                "palette-select-from-offset-entry",
                Icon::ArrowsOutLineHorizontal,
                Mode::SelectFromOffset,
            ),
        );
    }
    if c.has_active {
        put(
            out,
            Entry::into_mode(
                "palette-select-range-entry",
                Icon::BracketsCurly,
                Mode::SelectRange,
            ),
        );
    }
    if c.has_active {
        put(
            out,
            Entry::into_mode(
                "palette-set-columns-local-entry",
                Icon::Columns,
                Mode::SetColumnsLocal,
            ),
        );
    }
    if c.has_active {
        put(
            out,
            Entry::command(
                "palette-copy-file-length",
                Icon::Ruler,
                PaletteCommand::CopyFileLength,
            ),
        );
    }
    if c.has_active && c.has_selection {
        put(
            out,
            Entry::command(
                "palette-copy-selection-length",
                Icon::Ruler,
                PaletteCommand::CopySelectionLength,
            ),
        );
    }
    put(
        out,
        Entry::into_mode(
            "palette-set-columns-global-entry",
            Icon::ColumnsPlusRight,
            Mode::SetColumnsGlobal,
        ),
    );
}

/// Rows that split and merge panes.
pub open spec fn web_split_rows(acc: Seq<EntryView>) -> Seq<EntryView> {
    acc.push(
        EntryView::command(
            "palette-split-right"@,
            Icon::ArrowLineRight,
            PaletteCommand::SplitRight,
        ),
    ).push(
        EntryView::command("palette-split-left"@, Icon::ArrowLineLeft, PaletteCommand::SplitLeft),
    ).push(
        EntryView::command("palette-split-up"@, Icon::ArrowLineUp, PaletteCommand::SplitUp),
    ).push(
        EntryView::command("palette-split-down"@, Icon::ArrowLineDown, PaletteCommand::SplitDown),
    ).push(
        EntryView::command(
            "palette-merge-right"@,
            Icon::ArrowBendDownRight,
            PaletteCommand::MergeRight,
        ),
    ).push(
        EntryView::command(
            "palette-merge-left"@,
            Icon::ArrowBendDownLeft,
            PaletteCommand::MergeLeft,
        ),
    ).push(
        EntryView::command("palette-merge-up"@, Icon::ArrowBendUpRight, PaletteCommand::MergeUp),
    ).push(
        EntryView::command(
            "palette-merge-down"@,
            Icon::ArrowBendUpRight,
            PaletteCommand::MergeDown,
        ),
    )
}

fn put_web_split_rows(out: &mut Vec<Entry>)
    ensures
        rows_view(final(out)@) == web_split_rows(rows_view(old(out)@)),
{
    put(
        out,
        Entry::command("palette-split-right", Icon::ArrowLineRight, PaletteCommand::SplitRight),
    );
    put(
        out,
        Entry::command("palette-split-left", Icon::ArrowLineLeft, PaletteCommand::SplitLeft),
    );
    put(out, Entry::command("palette-split-up", Icon::ArrowLineUp, PaletteCommand::SplitUp));
    put(
        out,
        Entry::command("palette-split-down", Icon::ArrowLineDown, PaletteCommand::SplitDown),
    );
    put(
        out,
        Entry::command(
            "palette-merge-right",
            Icon::ArrowBendDownRight,
            PaletteCommand::MergeRight,
        ),
    );
    put(
        out,
        Entry::command("palette-merge-left", Icon::ArrowBendDownLeft, PaletteCommand::MergeLeft),
    );
    put(out, Entry::command("palette-merge-up", Icon::ArrowBendUpRight, PaletteCommand::MergeUp));
    put(
        out,
        Entry::command("palette-merge-down", Icon::ArrowBendUpRight, PaletteCommand::MergeDown),
    );
}

/// Rows that move tabs between panes.
pub open spec fn web_pane_rows(acc: Seq<EntryView>) -> Seq<EntryView> {
    acc.push(
        EntryView::command(
            "palette-move-tab-right"@,
            Icon::ArrowRight,
            PaletteCommand::MoveTabRight,
        ),
    ).push(
        EntryView::command(
            "palette-move-tab-left"@,
            Icon::ArrowLeft,
            PaletteCommand::MoveTabLeft,
        ),
    ).push(
        EntryView::command("palette-move-tab-up"@, Icon::ArrowUp, PaletteCommand::MoveTabUp),
    ).push(
        EntryView::command(
            "palette-move-tab-down"@,
            Icon::ArrowDown,
            PaletteCommand::MoveTabDown,
        ),
    ).push(
        EntryView::command(
            "palette-move-tab-visual"@,
            Icon::ArrowsOutCardinal,
            PaletteCommand::MoveTabVisual,
        ),
    ).push(
        EntryView::command(
            "palette-merge-visual"@,
            Icon::ArrowsInCardinal,
            PaletteCommand::MergeVisual,
        ),
    ).push(
        EntryView::command("palette-focus-pane"@, Icon::Crosshair, PaletteCommand::FocusPane),
    ).push(
        EntryView::command(
            "palette-close-tool-pane"@,
            Icon::XSquare,
            PaletteCommand::CloseToolPane,
        ),
    )
}

fn put_web_pane_rows(out: &mut Vec<Entry>)
    ensures
        rows_view(final(out)@) == web_pane_rows(rows_view(old(out)@)),
{
    put(
        out,
        Entry::command("palette-move-tab-right", Icon::ArrowRight, PaletteCommand::MoveTabRight),
    );
    put(
        out,
        Entry::command("palette-move-tab-left", Icon::ArrowLeft, PaletteCommand::MoveTabLeft),
    );
    put(out, Entry::command("palette-move-tab-up", Icon::ArrowUp, PaletteCommand::MoveTabUp));
    put(
        out,
        Entry::command("palette-move-tab-down", Icon::ArrowDown, PaletteCommand::MoveTabDown),
    );
    put(
        out,
        Entry::command(
            "palette-move-tab-visual",
            Icon::ArrowsOutCardinal,
            PaletteCommand::MoveTabVisual,
        ),
    );
    put(
        out,
        Entry::command(
            "palette-merge-visual",
            Icon::ArrowsInCardinal,
            PaletteCommand::MergeVisual,
        ),
    );
    put(out, Entry::command("palette-focus-pane", Icon::Crosshair, PaletteCommand::FocusPane));
    put(
        out,
        Entry::command("palette-close-tool-pane", Icon::XSquare, PaletteCommand::CloseToolPane),
    );
}

/// The row that sets the address of a file's first byte. It tells the address
/// that is set.
pub open spec fn web_base_row(c: WebContext) -> EntryView {
    EntryView::new(
        match c.virtual_base {
            Some(base) => LabelView::Args(
                "palette-set-virtual-base-entry-current"@,
                seq![("address"@, hex_text(base))],
            ),
            None => LabelView::Key("palette-set-virtual-base-entry"@),
        },
        ActionView::SwitchMode(Mode::SetVirtualBase),
    ).icon(Icon::Target).disabled(!c.has_active)
}

fn base_row(c: WebContext) -> (r: Entry)
    ensures
        r@ == web_base_row(c),
{
    let label = match c.virtual_base {
        Some(base) => label_arg(
            "palette-set-virtual-base-entry-current",
            "address",
            hex_string(base),
        ),
        None => Label::Key("palette-set-virtual-base-entry"),
    };
    Entry::new(label, Action::SwitchMode(Mode::SetVirtualBase)).with_icon(
        Icon::Target,
    ).with_disabled(!c.has_active)
}

/// The main list.
pub open spec fn web_main_rows(c: WebContext) -> Seq<EntryView> {
    let fixed = web_mode_rows(
        web_edit_rows(web_tool_rows(web_file_rows(seq![], c), c), c),
        c,
    ).push(web_base_row(c));
    web_pane_rows(web_split_rows(fixed))
}

fn build_web_main(c: WebContext) -> (r: Vec<Entry>)
    ensures
        rows_view(r@) == web_main_rows(c),
{
    let mut out: Vec<Entry> = Vec::new();
    assert(rows_view(out@) =~= seq![]);
    put_web_file_rows(&mut out, c);
    put_web_tool_rows(&mut out, c);
    put_web_edit_rows(&mut out, c);
    put_web_mode_rows(&mut out, c);
    put(&mut out, base_row(c));
    put_web_split_rows(&mut out);
    put_web_pane_rows(&mut out);
    out
}

/// A row that focuses a file.
pub open spec fn web_file_row(f: OpenFile) -> EntryView {
    EntryView::new(LabelView::Text(f.display_name@), ActionView::FocusFile(f.id)).icon(Icon::File)
}

fn put_files(out: &mut Vec<Entry>, files: &Vec<OpenFile>)
    ensures
        rows_view(final(out)@) == rows_view(old(out)@) + files@.map_values(
            |f: OpenFile| web_file_row(f),
        ),
{
    let ghost rows = files@.map_values(|f: OpenFile| web_file_row(f));
    let ghost before = rows_view(out@);
    let mut i: usize = 0;
    assert(before + rows.take(0) =~= before);
    while i < files.len()
        invariant
            i <= files@.len(),
            rows == files@.map_values(|f: OpenFile| web_file_row(f)),
            rows_view(out@) == before + rows.take(i as int),
        decreases files@.len() - i,
    {
        put(
            out,
            Entry::new(
                Label::Text(files[i].display_name.clone()),
                Action::FocusFile(files[i].id),
            ).with_icon(Icon::File),
        );
        i = i + 1;
        assert(rows_view(out@) =~= before + rows.take(i as int));
    }
    assert(rows.take(i as int) =~= rows);
}

/// What the query of the main list asks for: `@` in front of it asks to go to
/// an offset, `=` to compute a number, each by an expression.
pub enum MainQuery {
    List,
    Jump(String),
    Evaluate(String),
}

/// The same, with text as plain text.
pub enum MainQueryView {
    List,
    Jump(Seq<char>),
    Evaluate(Seq<char>),
}

impl View for MainQuery {
    type V = MainQueryView;

    open spec fn view(&self) -> MainQueryView {
        match self {
            MainQuery::List => MainQueryView::List,
            MainQuery::Jump(s) => MainQueryView::Jump(s@),
            MainQuery::Evaluate(s) => MainQueryView::Evaluate(s@),
        }
    }
}

/// What a query asks for. Blanks in front of it count for nothing.
pub open spec fn query_asks(query: Seq<char>) -> MainQueryView {
    let q = front_trimmed(query);
    if q.len() > 0 && q[0] == '@' {
        MainQueryView::Jump(q.drop_first())
    } else if q.len() > 0 && q[0] == '=' {
        MainQueryView::Evaluate(q.drop_first())
    } else {
        MainQueryView::List
    }
}

/// Tells what the query of the main list asks for.
pub fn main_query(query: &str) -> (r: MainQuery)
    ensures
        r@ == query_asks(query@),
{
    let text = trim_start(query);
    let q: &str = text.as_str();
    let len: usize = q.unicode_len();
    if len == 0 {
        return MainQuery::List;
    }
    let c = q.get_char(0);
    if c != '@' && c != '=' {
        return MainQuery::List;
    }
    let rest = q.substring_char(1, len).to_owned();
    assert(rest@ =~= q@.drop_first());
    if c == '@' {
        MainQuery::Jump(rest)
    } else {
        MainQuery::Evaluate(rest)
    }
}

/// The rows of a mode. `computed` are the rows for the value of an expression,
/// where the mode and the query ask for one.
pub open spec fn web_rows(
    mode: Mode,
    query: Seq<char>,
    c: WebContext,
    at: OffsetContext,
    files: Seq<OpenFile>,
    typed: TypedArgument,
    computed: Seq<EntryView>,
) -> Seq<EntryView> {
    let text = trimmed(query);
    let no_file = seq![invalid_row(text, LabelView::Key("palette-invalid-no-active-file"@))];
    match mode {
        Mode::Main => if query_asks(query) is List {
            web_main_rows(c)
        } else {
            computed
        },
        Mode::QuickOpen => files.map_values(|f: OpenFile| web_file_row(f)),
        Mode::SetVirtualBase => if at.available {
            computed
        } else {
            no_file
        },
        Mode::GoToOffset | Mode::GoToAddress | Mode::SelectFromOffset | Mode::SelectRange =>
            if at.available {
                offset_rows(mode, text, typed, at)
            } else {
                no_file
            },
        Mode::SetColumnsLocal => if at.available {
            columns_rows(mode, text, typed)
        } else {
            no_file
        },
        Mode::SetColumnsGlobal => columns_rows(mode, text, typed),
        _ => seq![],
    }
}

/// Lists the rows of a mode.
pub fn build_wasm_palette_entries(
    mode: Mode,
    query: &str,
    c: WebContext,
    at: OffsetContext,
    files: &Vec<OpenFile>,
    typed: &TypedArgument,
    computed: Vec<Entry>,
) -> (r: Vec<Entry>)
    ensures
        rows_view(r@) == web_rows(mode, query@, c, at, files@, *typed, rows_view(computed@)),
{
    let text = trim(query);
    let mut out: Vec<Entry> = Vec::new();
    assert(rows_view(out@) =~= seq![]);
    match mode {
        Mode::Main => {
            return match main_query(query) {
                MainQuery::List => build_web_main(c),
                _ => computed,
            };
        },
        Mode::QuickOpen => put_files(&mut out, files),
        Mode::SetVirtualBase => {
            if at.available {
                return computed;
            }
            invalid_entry(&mut out, text.as_str(), Label::Key("palette-invalid-no-active-file"));
        },
        Mode::GoToOffset | Mode::GoToAddress | Mode::SelectFromOffset | Mode::SelectRange => {
            if at.available {
                build_offset_entries(&mut out, mode, text.as_str(), typed, at);
            } else {
                invalid_entry(
                    &mut out,
                    text.as_str(),
                    Label::Key("palette-invalid-no-active-file"),
                );
            }
        },
        Mode::SetColumnsLocal => {
            if at.available {
                build_columns_entries(&mut out, mode, text.as_str(), typed);
            } else {
                invalid_entry(
                    &mut out,
                    text.as_str(),
                    Label::Key("palette-invalid-no-active-file"),
                );
            }
        },
        Mode::SetColumnsGlobal => build_columns_entries(&mut out, mode, text.as_str(), typed),
        _ => {},
    }
    assert(rows_view(out@) =~= web_rows(
        mode,
        query@,
        c,
        at,
        files@,
        *typed,
        rows_view(computed@),
    ));
    out
}

/// Whether rows have one with a label and an action that can be picked, or that is
/// greyed out.
#[verifier::opaque]
pub open spec fn offers(
    rows: Seq<EntryView>,
    label: LabelView,
    action: ActionView,
    enabled: bool,
) -> bool {
    exists|k: int|
        0 <= k < rows.len() && (#[trigger] rows[k]).label == label && rows[k].action == action
            && rows[k].disabled == !enabled
}

proof fn lemma_offer_pushed()
    ensures
        forall|rows: Seq<EntryView>, e: EntryView, l: LabelView, a: ActionView, on: bool|
            #[trigger] offers(rows.push(e), l, a, on) == (offers(rows, l, a, on) || (e.label == l
                && e.action == a && e.disabled == !on)),
        forall|l: LabelView, a: ActionView, on: bool| !#[trigger] offers(seq![], l, a, on),
{
    reveal(offers);
    assert forall|rows: Seq<EntryView>, e: EntryView, l: LabelView, a: ActionView, on: bool|
        #[trigger] offers(rows.push(e), l, a, on) == (offers(rows, l, a, on) || (e.label == l
            && e.action == a && e.disabled == !on)) by {
        let more = rows.push(e);
        if offers(rows, l, a, on) {
            let k = choose|k: int|
                0 <= k < rows.len() && (#[trigger] rows[k]).label == l && rows[k].action == a
                    && rows[k].disabled == !on;
            assert(more[k] == rows[k]);
        }
        if e.label == l && e.action == a && e.disabled == !on {
            assert(more[rows.len() as int] == e);
        }
        if offers(more, l, a, on) {
            let k = choose|k: int|
                0 <= k < more.len() && (#[trigger] more[k]).label == l && more[k].action == a
                    && more[k].disabled == !on;
            if k < rows.len() {
                assert(rows[k] == more[k]);
            }
        }
    }
}

/// Whether rows offer a command under the message of a key.
pub open spec fn offers_command(
    rows: Seq<EntryView>,
    key: Seq<char>,
    c: PaletteCommand,
    enabled: bool,
) -> bool {
    offers(rows, LabelView::Key(key), ActionView::InvokeCommand(c), enabled)
}

/// The main list always shows what can be done with a file, and lets it be picked where
/// there is an active one; closed tabs can be opened again where there are any, and
/// files be compared where there are two.
#[verifier::rlimit(60)]
#[verifier::spinoff_prover]
pub proof fn law_web_list_offers_what_can_be_done(c: WebContext)
    ensures
        ({
            let rows = web_main_rows(c);
            &&& offers_command(rows, "menu-file-new"@, PaletteCommand::NewFile, true)
            &&& offers_command(rows, "toolbar-open-file"@, PaletteCommand::OpenFile, true)
            &&& offers_command(
                rows,
                "palette-save-as-download"@,
                PaletteCommand::SaveAsDownload,
                c.has_active,
            )
            &&& offers_command(
                rows,
                "menu-file-reopen-closed"@,
                PaletteCommand::ReopenClosedTab,
                c.has_closed,
            )
            &&& offers_command(
                rows,
                "palette-toggle-readonly"@,
                PaletteCommand::ToggleEditMode,
                c.has_active,
            )
            &&& offers_command(rows, "palette-undo"@, PaletteCommand::Undo, c.has_active)
            &&& offers_command(rows, "palette-redo"@, PaletteCommand::Redo, c.has_active)
            &&& offers_command(rows, "palette-paste"@, PaletteCommand::Paste, c.has_active)
            &&& offers_command(
                rows,
                "palette-paste-as-hex"@,
                PaletteCommand::PasteAsHex,
                c.has_active,
            )
            &&& offers_command(
                rows,
                "palette-compare-files"@,
                PaletteCommand::CompareFiles,
                c.several_files,
            )
            &&& offers_command(
                rows,
                "palette-compute-entropy"@,
                PaletteCommand::ComputeEntropy,
                c.has_active,
            )
            &&& offers_command(
                rows,
                "palette-strings-whole-file"@,
                PaletteCommand::FindStringsWholeFile,
                c.has_active,
            )
            &&& offers_command(
                rows,
                "palette-checksums-whole-file"@,
                PaletteCommand::CalculateChecksumsWholeFile,
                c.has_active,
            )
        }),
{
    lemma_offer_pushed();
}

/// The main list always offers panels and panes, each direction under its own label.
#[verifier::rlimit(60)]
#[verifier::spinoff_prover]
pub proof fn law_web_list_always_offers_panes(c: WebContext)
    ensures
        ({
            let rows = web_main_rows(c);
            &&& offers_command(
                rows,
                "palette-tool-show-inspector"@,
                PaletteCommand::ToggleInspector,
                true,
            )
            &&& offers_command(rows, "palette-tool-show-memory"@, PaletteCommand::ToggleMemory, true)
            &&& offers_command(
                rows,
                "palette-tool-show-console"@,
                PaletteCommand::ToggleConsole,
                true,
            )
            &&& offers_command(
                rows,
                "palette-tool-show-settings"@,
                PaletteCommand::ToggleSettings,
                true,
            )
            &&& offers_command(rows, "palette-toggle-vim"@, PaletteCommand::ToggleVim, true)
            &&& offers_command(rows, "palette-split-right"@, PaletteCommand::SplitRight, true)
            &&& offers_command(rows, "palette-split-left"@, PaletteCommand::SplitLeft, true)
            &&& offers_command(rows, "palette-split-up"@, PaletteCommand::SplitUp, true)
            &&& offers_command(rows, "palette-split-down"@, PaletteCommand::SplitDown, true)
            &&& offers_command(rows, "palette-merge-right"@, PaletteCommand::MergeRight, true)
            &&& offers_command(rows, "palette-merge-left"@, PaletteCommand::MergeLeft, true)
            &&& offers_command(rows, "palette-merge-up"@, PaletteCommand::MergeUp, true)
            &&& offers_command(rows, "palette-merge-down"@, PaletteCommand::MergeDown, true)
            &&& offers_command(rows, "palette-move-tab-right"@, PaletteCommand::MoveTabRight, true)
            &&& offers_command(rows, "palette-move-tab-left"@, PaletteCommand::MoveTabLeft, true)
            &&& offers_command(rows, "palette-move-tab-up"@, PaletteCommand::MoveTabUp, true)
            &&& offers_command(rows, "palette-move-tab-down"@, PaletteCommand::MoveTabDown, true)
            &&& offers_command(rows, "palette-focus-pane"@, PaletteCommand::FocusPane, true)
            &&& offers_command(
                rows,
                "palette-close-tool-pane"@,
                PaletteCommand::CloseToolPane,
                true,
            )
        }),
{
    lemma_offer_pushed();
}

/// Rows for what is selected are listed exactly where something is; those that lead to
/// a place exactly where there is an active file, and to an address where it has one;
/// the one that mounts exactly where something can mount the file.
#[verifier::rlimit(60)]
#[verifier::spinoff_prover]
pub proof fn law_web_list_follows_active_file(c: WebContext)
    ensures
        ({
            let rows = web_main_rows(c);
            &&& offers_command(
                rows,
                "palette-copy-selection-range"@,
                PaletteCommand::CopySelectionRange,
                true,
            ) <==> c.has_selection
            &&& offers_command(
                rows,
                "palette-strings-selection"@,
                PaletteCommand::FindStringsSelection,
                true,
            ) <==> c.has_selection
            &&& offers_command(
                rows,
                "palette-checksums-selection"@,
                PaletteCommand::CalculateChecksumsSelection,
                true,
            ) <==> c.has_selection
            &&& offers_command(
                rows,
                "palette-browse-vfs"@,
                PaletteCommand::BrowseArchive,
                true,
            ) <==> c.has_handler
            &&& offers_command(
                rows,
                "palette-toggle-workspace-vfs"@,
                PaletteCommand::ToggleWorkspaceVfs,
                true,
            ) <==> c.has_workspaces
            &&& offers(
                rows,
                LabelView::Key("palette-go-to-offset-entry"@),
                ActionView::SwitchMode(Mode::GoToOffset),
                true,
            ) <==> c.has_active
            &&& offers(
                rows,
                LabelView::Key("palette-go-to-address-entry"@),
                ActionView::SwitchMode(Mode::GoToAddress),
                true,
            ) <==> c.has_active && c.virtual_base is Some
            &&& offers(
                rows,
                LabelView::Key("palette-select-from-offset-entry"@),
                ActionView::SwitchMode(Mode::SelectFromOffset),
                true,
            ) <==> c.has_active
            &&& offers(
                rows,
                LabelView::Key("palette-select-range-entry"@),
                ActionView::SwitchMode(Mode::SelectRange),
                true,
            ) <==> c.has_active
            &&& offers(
                rows,
                LabelView::Key("palette-set-columns-local-entry"@),
                ActionView::SwitchMode(Mode::SetColumnsLocal),
                true,
            ) <==> c.has_active
            &&& offers(
                rows,
                LabelView::Key("palette-set-columns-global-entry"@),
                ActionView::SwitchMode(Mode::SetColumnsGlobal),
                true,
            )
            &&& offers_command(
                rows,
                "palette-copy-file-length"@,
                PaletteCommand::CopyFileLength,
                true,
            ) <==> c.has_active
            &&& offers_command(
                rows,
                "palette-copy-selection-length"@,
                PaletteCommand::CopySelectionLength,
                true,
            ) <==> c.has_active && c.has_selection
        }),
{
    lemma_offer_pushed();
}

/// A query with `@` in front asks to go to what follows, one with `=` to compute it;
/// any other lists what can be done.
pub proof fn law_mark_in_front_tells_the_query(rest: Seq<char>, query: Seq<char>)
    ensures
        query_asks(seq!['@'] + rest) == MainQueryView::Jump(rest),
        query_asks(seq!['='] + rest) == MainQueryView::Evaluate(rest),
        query.len() == 0 ==> query_asks(query) is List,
{
    let at = seq!['@'] + rest;
    let eq = seq!['='] + rest;
    assert(at[0] == '@' && eq[0] == '=');
    crate::text::law_blanks('@');
    crate::text::law_blanks('=');
    assert(at.drop_first() =~= rest);
    assert(eq.drop_first() =~= rest);
}

/// The list of files has a row for each, in their order, under its name, and picking it
/// focuses that file.
pub proof fn law_each_file_has_its_row(
    query: Seq<char>,
    c: WebContext,
    at: OffsetContext,
    files: Seq<OpenFile>,
    typed: TypedArgument,
    computed: Seq<EntryView>,
    i: int,
)
    ensures
        ({
            let rows = web_rows(Mode::QuickOpen, query, c, at, files, typed, computed);
            &&& rows.len() == files.len()
            &&& 0 <= i < files.len() ==> rows[i].label == LabelView::Text(files[i].display_name@)
                && rows[i].action == ActionView::FocusFile(files[i].id) && !rows[i].disabled
        }),
{
}

/// With something typed, the row for a count selects that many bytes from the caret on,
/// or up to the end where fewer are left; the row for a range selects what was typed,
/// the row for an offset goes there, and the row for columns takes a number from one to
/// sixty-four.
pub proof fn law_web_typed_argument_is_taken(
    query: Seq<char>,
    c: WebContext,
    at: OffsetContext,
    files: Seq<OpenFile>,
    typed: TypedArgument,
    computed: Seq<EntryView>,
)
    requires
        at.available,
        trimmed(query).len() > 0,
    ensures
        ({
            let rows = web_rows(Mode::SelectFromOffset, query, c, at, files, typed, computed);
            let left = at.source_len - at.cursor;
            &&& rows.len() == 1
            &&& match typed.number {
                Ok(crate::palette_rows::Number::Absolute(n)) => if n > 0 && left > 0 {
                    rows[0].action matches ActionView::SetSelection(start, end) && start
                        == at.cursor && (n <= left ==> end - start == n) && (n > left ==> end
                        == at.source_len)
                } else {
                    rows[0].action is NoOp
                },
                _ => rows[0].action is NoOp,
            }
        }),
        ({
            let range = web_rows(Mode::SelectRange, query, c, at, files, typed, computed);
            &&& range.len() == 1
            &&& match typed.range {
                Ok((start, end)) => range[0].action == ActionView::SetSelection(start, end),
                Err(_) => range[0].action is NoOp,
            }
        }),
        ({
            let offset = web_rows(Mode::GoToOffset, query, c, at, files, typed, computed);
            &&& offset.len() == 1
            &&& match typed.target {
                Ok(target) => offset[0].action == ActionView::GoToOffset(target),
                Err(_) => offset[0].action is NoOp,
            }
        }),
        ({
            let one = web_rows(Mode::SetColumnsLocal, query, c, at, files, typed, computed);
            let all = web_rows(Mode::SetColumnsGlobal, query, c, at, files, typed, computed);
            &&& one.len() == 1 && all.len() == 1
            &&& match typed.number {
                Ok(crate::palette_rows::Number::Absolute(n)) => if 1 <= n <= 64 {
                    (one[0].action matches ActionView::SetColumns(scope, count) && scope is Local
                        && count == n) && (all[0].action matches ActionView::SetColumns(
                        scope,
                        count,
                    ) && scope is Global && count == n)
                } else {
                    one[0].action is NoOp && all[0].action is NoOp
                },
                _ => one[0].action is NoOp && all[0].action is NoOp,
            }
        }),
{
}

/// Without an active file, a mode that needs one lists a row that does nothing.
pub proof fn law_web_mode_needs_a_file(
    mode: Mode,
    query: Seq<char>,
    c: WebContext,
    at: OffsetContext,
    files: Seq<OpenFile>,
    typed: TypedArgument,
    computed: Seq<EntryView>,
)
    requires
        !at.available,
        mode is GoToOffset || mode is GoToAddress || mode is SelectFromOffset || mode is SelectRange
            || mode is SetColumnsLocal || mode is SetVirtualBase,
    ensures
        web_rows(mode, query, c, at, files, typed, computed).len() == 1,
        web_rows(mode, query, c, at, files, typed, computed)[0].action is NoOp,
{
}

} // verus!

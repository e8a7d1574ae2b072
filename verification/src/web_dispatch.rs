//! What the palette, the tab bar and the keys do in the browser.

use vstd::prelude::*;
use vstd::string::*;
#[allow(unused_imports)]
use crate::compare::CompareSession;
use crate::active::{file_replaced, reselected};
#[allow(unused_imports)]
use crate::closing::redocked;
use crate::copy::{copy_formatted_offset, OffsetCopy};
#[allow(unused_imports)]
use crate::copy::offset_copy_text;
use crate::dispatch::{invoke_command, pick_side, set_virtual_base, Effect};
#[allow(unused_imports)]
use crate::dispatch::{base_set, command_done, mode_shown, shut, side_picked};
use crate::dock_ops::SplitRequest;
use crate::editor::{clamp_offset, HexEditor, Selection};
#[allow(unused_imports)]
use crate::editor::clamped;
use crate::labels::{label_arg, Label};
#[allow(unused_imports)]
use crate::labels::LabelView;
use crate::palette::{Action, ColumnScope, CompareSide, Mode, Outcome, PaletteCommand};
#[allow(unused_imports)]
use crate::palette::PaletteState;
use crate::session::{find_file, HxyApp, OpenFile};
#[allow(unused_imports)]
use crate::session::{file_at, opened_in_leaf};
use crate::settings::MIN_COLUMNS;
#[allow(unused_imports)]
use crate::settings::AppSettings;
use crate::source::TabSource;
use crate::tabs::{DockTab, FileId, Tab, WorkspaceTab};
#[allow(unused_imports)]
use crate::text::dec;
use crate::text::numbered;
use crate::viewer::{title, titled, TabTitle};
#[allow(unused_imports)]
use crate::viewer::{plain_title, title_view, TitleView};
use crate::web::{
    active_file_bytes_wasm, copy_active_selection_wasm, find_last, spawn_compare_wasm,
    toggle_tab_wasm,
};
#[allow(unused_imports)]
use crate::web::{
    browsable, bytes_opened, last_place, last_selected, lossy_text, tab_came, web_compared,
};
#[allow(unused_imports)]
use crate::source::SourceView;
#[allow(unused_imports)]
use crate::web::{law_memory_path_found, memory_path_of};

verus! {

/// What is left to do after a pick in the palette.
pub enum WebEffect {
    Nothing,
    /// What the command leaves to do everywhere.
    Shared(Effect),
    /// Asks the user for files to open.
    OpenFiles,
    /// Offers a file for download.
    Download { name: String, bytes: Vec<u8> },
    /// Opens the tab again that was closed last.
    ReopenClosed,
    CopyText(String),
    /// Copies the address of a place, counted from that of the first byte.
    CopyAddress { offset: u64, base: u64 },
    /// Makes a pane in the dock.
    Split(SplitRequest),
    /// Sets the range that strings are looked for in, and makes a pane.
    StringsIn { file_id: FileId, part: Selection, split: Option<SplitRequest> },
    /// Sets the range that checksums are computed of, and makes a pane.
    ChecksumsOf { file_id: FileId, part: Selection, split: Option<SplitRequest> },
    /// Mounts a file.
    Browse(FileId),
    /// Scrolls the active file where a place is not to be seen.
    Reveal(u64),
    /// Shows a comparison.
    Compare(CompareSession),
}

/// Whether a command does in the browser what it does everywhere.
pub open spec fn shared_command(c: PaletteCommand) -> bool {
    c is ToggleVim || c is CompareFiles || c is Undo || c is Redo || c is Paste || c is PasteAsHex
        || c is JumpNextField || c is JumpPrevField || c is ToggleWorkspaceVfs || c is SplitRight
        || c is SplitLeft || c is SplitUp || c is SplitDown || c is MergeRight || c is MergeLeft
        || c is MergeUp || c is MergeDown || c is MoveTabRight || c is MoveTabLeft || c is MoveTabUp
        || c is MoveTabDown || c is MoveTabVisual || c is MergeVisual || c is FocusPane
        || c is CloseToolPane
}

fn is_shared(c: PaletteCommand) -> (r: bool)
    ensures
        r == shared_command(c),
{
    matches!(
        c,
        PaletteCommand::ToggleVim | PaletteCommand::CompareFiles | PaletteCommand::Undo
            | PaletteCommand::Redo | PaletteCommand::Paste | PaletteCommand::PasteAsHex
            | PaletteCommand::JumpNextField | PaletteCommand::JumpPrevField
            | PaletteCommand::ToggleWorkspaceVfs | PaletteCommand::SplitRight
            | PaletteCommand::SplitLeft | PaletteCommand::SplitUp | PaletteCommand::SplitDown
            | PaletteCommand::MergeRight | PaletteCommand::MergeLeft | PaletteCommand::MergeUp
            | PaletteCommand::MergeDown | PaletteCommand::MoveTabRight | PaletteCommand::MoveTabLeft
            | PaletteCommand::MoveTabUp | PaletteCommand::MoveTabDown
            | PaletteCommand::MoveTabVisual | PaletteCommand::MergeVisual
            | PaletteCommand::FocusPane | PaletteCommand::CloseToolPane
    )
}

/// The tab that a command shows.
pub open spec fn tab_of_command(c: PaletteCommand, last: Option<FileId>) -> Option<Tab> {
    match c {
        PaletteCommand::ToggleInspector => Some(Tab::Inspector),
        PaletteCommand::ToggleConsole => Some(Tab::Console),
        PaletteCommand::ToggleSettings => Some(Tab::Settings),
        PaletteCommand::ToggleMemory => Some(Tab::Memory),
        PaletteCommand::FindStringsWholeFile | PaletteCommand::FindStringsWithOptions
        | PaletteCommand::FindStringsSelection => match last {
            Some(id) => Some(Tab::Strings(id)),
            None => None,
        },
        PaletteCommand::CalculateChecksumsWholeFile
        | PaletteCommand::CalculateChecksumsSelection => match last {
            Some(id) => Some(Tab::Checksums(id)),
            None => None,
        },
        PaletteCommand::ComputeEntropy | PaletteCommand::ShowEntropy
        | PaletteCommand::ToggleEntropy => match last {
            Some(id) => Some(Tab::Entropy(id)),
            None => None,
        },
        _ => None,
    }
}

fn command_tab(c: PaletteCommand, last: Option<FileId>) -> (r: Option<Tab>)
    ensures
        r == tab_of_command(c, last),
{
    match c {
        PaletteCommand::ToggleInspector => Some(Tab::Inspector),
        PaletteCommand::ToggleConsole => Some(Tab::Console),
        PaletteCommand::ToggleSettings => Some(Tab::Settings),
        PaletteCommand::ToggleMemory => Some(Tab::Memory),
        PaletteCommand::FindStringsWholeFile | PaletteCommand::FindStringsWithOptions
        | PaletteCommand::FindStringsSelection => match last {
            Some(id) => Some(Tab::Strings(id)),
            None => None,
        },
        PaletteCommand::CalculateChecksumsWholeFile
        | PaletteCommand::CalculateChecksumsSelection => match last {
            Some(id) => Some(Tab::Checksums(id)),
            None => None,
        },
        PaletteCommand::ComputeEntropy | PaletteCommand::ShowEntropy
        | PaletteCommand::ToggleEntropy => match last {
            Some(id) => Some(Tab::Entropy(id)),
            None => None,
        },
        _ => None,
    }
}

/// What is selected in the file that was last focused.
pub open spec fn last_selection(app: HxyApp) -> Option<Selection> {
    match last_place(app) {
        Some(i) => app.files@[i].editor.selection,
        None => None,
    }
}

/// What is left to do after a tab was shown for a command: the pane that it
/// asks for, and the range where the command is about what is selected.
pub open spec fn tab_effect(
    app: HxyApp,
    c: PaletteCommand,
    split: Option<SplitRequest>,
    r: WebEffect,
) -> bool {
    match (c, app.last_active_file, last_selection(app)) {
        (PaletteCommand::FindStringsSelection, Some(file_id), Some(part)) => r == (
        WebEffect::StringsIn { file_id, part, split }),
        (PaletteCommand::CalculateChecksumsSelection, Some(file_id), Some(part)) => r == (
        WebEffect::ChecksumsOf { file_id, part, split }),
        _ => split_left(split, r),
    }
}

/// Whether a pane that was asked for is left to make.
pub open spec fn split_left(split: Option<SplitRequest>, r: WebEffect) -> bool {
    match split {
        Some(s) => r == WebEffect::Split(s),
        None => r is Nothing,
    }
}

/// Whether a tab was shown for a command.
pub open spec fn tab_shown_for(
    before: HxyApp,
    tab: Tab,
    c: PaletteCommand,
    r: WebEffect,
    after: HxyApp,
) -> bool {
    exists|split: Option<SplitRequest>| #[trigger]
        tab_came(before, tab, split, after) && tab_effect(before, c, split, r)
}

/// Whether a tab was shown.
pub open spec fn web_tab_shown(before: HxyApp, tab: Tab, r: WebEffect, after: HxyApp) -> bool {
    exists|split: Option<SplitRequest>| #[trigger]
        tab_came(before, tab, split, after) && split_left(split, r)
}

/// The number that a command copies as text.
pub open spec fn number_copied(c: PaletteCommand) -> Option<OffsetCopy> {
    match c {
        PaletteCommand::CopyCaretOffset => Some(OffsetCopy::Caret),
        PaletteCommand::CopySelectionLength => Some(OffsetCopy::SelectionLength),
        PaletteCommand::CopyFileLength => Some(OffsetCopy::FileLength),
        _ => None,
    }
}

/// The text of a number about the file that was last focused.
pub open spec fn last_number_text(app: HxyApp, kind: OffsetCopy) -> Option<Seq<char>> {
    match last_place(app) {
        Some(i) => offset_copy_text(
            kind,
            app.files@[i].editor.selection,
            app.files@[i].editor.bytes@.len() as u64,
            app.settings.offset_base,
        ),
        None => None,
    }
}

/// Whether text is left to copy.
pub open spec fn copies_text(text: Option<Seq<char>>, r: WebEffect) -> bool {
    match text {
        Some(t) => r matches WebEffect::CopyText(s) && s@ == t,
        None => r is Nothing,
    }
}

/// Whether an empty file was opened.
pub open spec fn untitled_opened(before: HxyApp, after: HxyApp) -> bool {
    exists|name: String, bytes: Vec<u8>|
        {
            &&& #[trigger] bytes_opened(
                before,
                name,
                bytes,
                None,
                FileId(before.next_file_id),
                after,
            )
            &&& name@ == "Untitled"@
            &&& bytes@.len() == 0
        }
}

/// A file that was unlocked or locked.
pub open spec fn lock_flipped(file: OpenFile) -> OpenFile {
    OpenFile {
        editor: HexEditor { edit_mode: file.editor.edit_mode.spec_toggled(), ..file.editor },
        ..file
    }
}

/// What a command does.
pub open spec fn web_command_done(
    before: HxyApp,
    c: PaletteCommand,
    r: WebEffect,
    after: HxyApp,
) -> bool {
    if shared_command(c) {
        r matches WebEffect::Shared(effect) && command_done(before, c, effect, after)
    } else if tab_of_command(c, before.last_active_file) is Some {
        tab_shown_for(before, tab_of_command(c, before.last_active_file)->0, c, r, after)
    } else if number_copied(c) is Some {
        after == before && copies_text(last_number_text(before, number_copied(c)->0), r)
    } else {
        match c {
            PaletteCommand::NewFile => r is Nothing && untitled_opened(before, after),
            PaletteCommand::OpenFile => r is OpenFiles && after == before,
            PaletteCommand::SaveAsDownload => after == before && match last_place(before) {
                Some(i) => r matches WebEffect::Download { name, bytes } && name@
                    == before.files@[i].display_name@ && bytes@ == before.files@[i].editor.bytes@,
                None => r is Nothing,
            },
            PaletteCommand::ReopenClosedTab => r is ReopenClosed && after == before,
            PaletteCommand::ToggleEditMode => r is Nothing && match last_place(before) {
                Some(i) => file_replaced(before, i, after) && after.files@[i] == lock_flipped(
                    before.files@[i],
                ),
                None => after == before,
            },
            PaletteCommand::CopySelectionRange => after == before && copies_text(
                match last_selected(before) {
                    Some(bytes) => Some(lossy_text(bytes)),
                    None => None,
                },
                r,
            ),
            PaletteCommand::CopyCaretAddress => after == before && match last_place(before) {
                Some(i) => match (
                    before.files@[i].editor.selection,
                    before.files@[i].virtual_base,
                ) {
                    (Some(sel), Some(base)) => r == (WebEffect::CopyAddress {
                        offset: sel.cursor,
                        base,
                    }),
                    _ => r is Nothing,
                },
                None => r is Nothing,
            },
            PaletteCommand::BrowseArchive => after == before && match before.last_active_file {
                Some(id) => if browsable(before, id) {
                    r == WebEffect::Browse(id)
                } else {
                    r is Nothing
                },
                None => r is Nothing,
            },
            _ => r is Nothing && after == before,
        }
    }
}

fn left_of_split(split: Option<SplitRequest>) -> (r: WebEffect)
    ensures
        split_left(split, r),
{
    match split {
        Some(s) => WebEffect::Split(s),
        None => WebEffect::Nothing,
    }
}

fn show_for_command(app: &mut HxyApp, tab: Tab, c: PaletteCommand) -> (r: WebEffect)
    requires
        old(app).wf(),
    ensures
        final(app).wf(),
        tab_shown_for(*old(app), tab, c, r, *final(app)),
{
    let last = app.last_active_file;
    let selection = match find_last(app) {
        Some(i) => app.files[i].editor.selection,
        None => None,
    };
    assert(selection == last_selection(*app));
    let split = toggle_tab_wasm(app, tab);
    let ghost asked = split;
    assert(tab_came(*old(app), tab, asked, *app));
    match (c, last, selection) {
        (PaletteCommand::FindStringsSelection, Some(file_id), Some(part)) =>
            WebEffect::StringsIn { file_id, part, split },
        (PaletteCommand::CalculateChecksumsSelection, Some(file_id), Some(part)) =>
            WebEffect::ChecksumsOf { file_id, part, split },
        _ => left_of_split(split),
    }
}

fn show_web_tab(app: &mut HxyApp, tab: Tab) -> (r: WebEffect)
    requires
        old(app).wf(),
    ensures
        final(app).wf(),
        web_tab_shown(*old(app), tab, r, *final(app)),
{
    let split = toggle_tab_wasm(app, tab);
    let ghost asked = split;
    assert(tab_came(*old(app), tab, asked, *app));
    left_of_split(split)
}

fn copy_number(app: &HxyApp, kind: OffsetCopy) -> (r: WebEffect)
    ensures
        copies_text(last_number_text(*app, kind), r),
{
    let text = match find_last(app) {
        Some(i) => copy_formatted_offset(
            kind,
            app.files[i].editor.selection,
            app.files[i].editor.source_len(),
            app.settings.offset_base,
        ),
        None => None,
    };
    match text {
        Some(t) => WebEffect::CopyText(t),
        None => WebEffect::Nothing,
    }
}

fn flip_lock(app: &mut HxyApp)
    requires
        old(app).wf(),
    ensures
        final(app).wf(),
        match last_place(*old(app)) {
            Some(i) => file_replaced(*old(app), i, *final(app)) && final(app).files@[i]
                == lock_flipped(old(app).files@[i]),
            None => *final(app) == *old(app),
        },
{
    if let Some(i) = find_last(app) {
        let mode = app.files[i].editor.edit_mode;
        app.files[i].editor.edit_mode = mode.toggled();
        assert(app.files@ =~= old(app).files@.update(i as int, app.files@[i as int]));
    }
}

fn address_of_caret(app: &HxyApp) -> (r: WebEffect)
    ensures
        match last_place(*app) {
            Some(i) => match (app.files@[i].editor.selection, app.files@[i].virtual_base) {
                (Some(sel), Some(base)) => r == (WebEffect::CopyAddress {
                    offset: sel.cursor,
                    base,
                }),
                _ => r is Nothing,
            },
            None => r is Nothing,
        },
{
    match find_last(app) {
        Some(i) => match (app.files[i].editor.selection, app.files[i].virtual_base) {
            (Some(sel), Some(base)) => WebEffect::CopyAddress { offset: sel.cursor, base },
            _ => WebEffect::Nothing,
        },
        None => WebEffect::Nothing,
    }
}

fn ask_browse(app: &HxyApp) -> (r: WebEffect)
    ensures
        match app.last_active_file {
            Some(id) => if browsable(*app, id) {
                r == WebEffect::Browse(id)
            } else {
                r is Nothing
            },
            None => r is Nothing,
        },
{
    match app.last_active_file {
        Some(id) => match find_file(&app.files, id) {
            Some(i) => if app.files[i].handler.is_some() {
                WebEffect::Browse(id)
            } else {
                WebEffect::Nothing
            },
            None => WebEffect::Nothing,
        },
        None => WebEffect::Nothing,
    }
}

fn open_untitled(app: &mut HxyApp)
    requires
        old(app).wf(),
        old(app).next_file_id < u64::MAX,
    ensures
        final(app).wf(),
        untitled_opened(*old(app), *final(app)),
{
    let name = "Untitled".to_owned();
    let bytes: Vec<u8> = Vec::new();
    let ghost asked = (name, bytes);
    let id = app.open_bytes_wasm(name, bytes, None);
    assert(bytes_opened(*old(app), asked.0, asked.1, None, id, *app));
}

/// Runs a command of the palette.
pub fn invoke_web_command(app: &mut HxyApp, c: PaletteCommand) -> (r: WebEffect)
    requires
        old(app).wf(),
        old(app).next_file_id < u64::MAX,
        old(app).next_workspace_id < u64::MAX,
        old(app).files@.len() + old(app).open_tabs@.len() + old(app).mounts@.len() < u64::MAX,
    ensures
        final(app).wf(),
        web_command_done(*old(app), c, r, *final(app)),
{
    if is_shared(c) {
        let effect = invoke_command(app, c);
        return WebEffect::Shared(effect);
    }
    if let Some(tab) = command_tab(c, app.last_active_file) {
        return show_for_command(app, tab, c);
    }
    match c {
        PaletteCommand::CopyCaretOffset => copy_number(app, OffsetCopy::Caret),
        PaletteCommand::CopySelectionLength => copy_number(app, OffsetCopy::SelectionLength),
        PaletteCommand::CopyFileLength => copy_number(app, OffsetCopy::FileLength),
        PaletteCommand::NewFile => {
            open_untitled(app);
            WebEffect::Nothing
        },
        PaletteCommand::OpenFile => WebEffect::OpenFiles,
        PaletteCommand::SaveAsDownload => match active_file_bytes_wasm(app) {
            Some((name, bytes)) => WebEffect::Download { name, bytes },
            None => WebEffect::Nothing,
        },
        PaletteCommand::ReopenClosedTab => WebEffect::ReopenClosed,
        PaletteCommand::ToggleEditMode => {
            flip_lock(app);
            WebEffect::Nothing
        },
        PaletteCommand::CopySelectionRange => match copy_active_selection_wasm(app, false) {
            Some(text) => WebEffect::CopyText(text),
            None => WebEffect::Nothing,
        },
        PaletteCommand::CopyCaretAddress => address_of_caret(app),
        PaletteCommand::BrowseArchive => ask_browse(app),
        _ => WebEffect::Nothing,
    }
}

/// Whether the caret of the file that was last focused went to an offset.
pub open spec fn web_went_to(before: HxyApp, target: u64, r: WebEffect, after: HxyApp) -> bool {
    match last_place(before) {
        Some(i) => {
            let at = clamped(target, before.files@[i].editor.bytes@.len());
            r == WebEffect::Reveal(at) && file_replaced(before, i, after) && after.files@[i]
                == reselected(before.files@[i], Some(Selection::spec_caret(at)))
        },
        None => r is Nothing && after == before,
    }
}

/// The selection of a range. Its start may stand at the end of the file, and
/// its last byte never stands in front of its start.
pub open spec fn web_range(start: u64, end_exclusive: u64, len: nat) -> Option<Selection> {
    if end_exclusive <= start {
        None
    } else {
        let s = if start <= len {
            start
        } else {
            len as u64
        };
        let e = if end_exclusive <= len {
            end_exclusive
        } else {
            len as u64
        };
        Some(
            Selection {
                anchor: s,
                cursor: if e == 0 || e - 1 < s {
                    s
                } else {
                    (e - 1) as u64
                },
            },
        )
    }
}

/// A range that lies in the file is selected as it was asked for, and none
/// reaches behind the end.
pub proof fn law_web_range(start: u64, end_exclusive: u64, len: nat)
    ensures
        web_range(start, end_exclusive, len) matches Some(sel) ==> sel.anchor <= sel.cursor
            && sel.cursor <= len && (end_exclusive <= len ==> sel.anchor == start && sel.cursor
            == end_exclusive - 1),
{
}

/// Whether a range of the file that was last focused was selected.
pub open spec fn web_selected(
    before: HxyApp,
    start: u64,
    end_exclusive: u64,
    r: WebEffect,
    after: HxyApp,
) -> bool {
    match last_place(before) {
        Some(i) => match web_range(start, end_exclusive, before.files@[i].editor.bytes@.len()) {
            Some(sel) => r == WebEffect::Reveal(sel.anchor) && file_replaced(before, i, after)
                && after.files@[i] == reselected(before.files@[i], Some(sel)),
            None => r is Nothing && after == before,
        },
        None => r is Nothing && after == before,
    }
}

/// Whether a number of columns was chosen for the file that was last focused,
/// or for all. Zero changes nothing.
pub open spec fn web_columns(before: HxyApp, scope: ColumnScope, count: u16, after: HxyApp)
    -> bool {
    if count < MIN_COLUMNS {
        after == before
    } else {
        match scope {
            ColumnScope::Global => after == (HxyApp { settings: after.settings, ..before })
                && after.settings == (AppSettings { hex_columns: count, ..before.settings }),
            ColumnScope::Local => match last_place(before) {
                Some(i) => file_replaced(before, i, after) && after.files@[i] == (OpenFile {
                    columns_override: Some(count),
                    ..before.files@[i]
                }),
                None => after == before,
            },
        }
    }
}

/// Whether a file of a comparison was picked. The second pick starts it.
pub open spec fn web_side_picked(
    before: HxyApp,
    side: CompareSide,
    source: TabSource,
    r: WebEffect,
    after: HxyApp,
) -> bool {
    match side {
        CompareSide::A => r is Nothing && side_picked(
            before,
            side,
            source,
            Effect::Nothing,
            after,
        ),
        CompareSide::B => {
            let mid = HxyApp {
                palette: PaletteState { compare_first: None, ..before.palette },
                ..before
            };
            match before.palette.compare_first {
                Some(first) => match r {
                    WebEffect::Compare(c) => web_compared(
                        mid,
                        first,
                        source,
                        Some(c),
                        after,
                    ),
                    WebEffect::Nothing => web_compared(mid, first, source, None, after),
                    _ => false,
                },
                None => r is Nothing && after == mid,
            }
        },
    }
}

/// Whether a file's tab came to the front of its pane. It is the active file
/// from now on.
pub open spec fn web_focused(before: HxyApp, id: FileId, after: HxyApp) -> bool {
    redocked(
        HxyApp { last_active_file: Some(id), ..before },
        opened_in_leaf(before.dock@, DockTab::Outer(Tab::File(id))),
        after,
    )
}

/// What a pick in the palette does. The palette shuts but for a change of its
/// mode; actions that the browser has nothing for do nothing more.
pub open spec fn web_action_done(before: HxyApp, action: Action, r: WebEffect, after: HxyApp)
    -> bool {
    let mid = shut(before);
    match action {
        Action::SwitchMode(mode) => r is Nothing && mode_shown(before, mode, after),
        Action::SetVirtualBase(base) => r is Nothing && base_set(mid, base, after),
        Action::InvokeCommand(c) => web_command_done(mid, c, r, after),
        Action::FocusFile(id) => r is Nothing && web_focused(mid, id, after),
        Action::FocusTab(tab) => web_tab_shown(mid, tab, r, after),
        Action::GoToOffset(target) => web_went_to(mid, target, r, after),
        Action::SetSelection { start, end_exclusive } => web_selected(
            mid,
            start,
            end_exclusive,
            r,
            after,
        ),
        Action::SetColumns { scope, count } => r is Nothing && web_columns(
            mid,
            scope,
            count,
            after,
        ),
        Action::CompareSelectSource { side, source } => web_side_picked(
            mid,
            side,
            source,
            r,
            after,
        ),
        _ => r is Nothing && after == mid,
    }
}

fn go_to_web_offset(app: &mut HxyApp, target: u64) -> (r: WebEffect)
    requires
        old(app).wf(),
    ensures
        final(app).wf(),
        web_went_to(*old(app), target, r, *final(app)),
{
    match find_last(app) {
        Some(i) => {
            let at: u64 = clamp_offset(target, app.files[i].editor.source_len());
            app.files[i].editor.selection = Some(Selection::caret(at));
            assert(app.files@ =~= old(app).files@.update(i as int, app.files@[i as int]));
            WebEffect::Reveal(at)
        },
        None => WebEffect::Nothing,
    }
}

fn select_web_range(app: &mut HxyApp, start: u64, end_exclusive: u64) -> (r: WebEffect)
    requires
        old(app).wf(),
    ensures
        final(app).wf(),
        web_selected(*old(app), start, end_exclusive, r, *final(app)),
{
    let i: usize = match find_last(app) {
        Some(i) => i,
        None => {
            return WebEffect::Nothing;
        },
    };
    if end_exclusive <= start {
        return WebEffect::Nothing;
    }
    let len: u64 = app.files[i].editor.source_len();
    let anchor: u64 = if start <= len {
        start
    } else {
        len
    };
    let end: u64 = if end_exclusive <= len {
        end_exclusive
    } else {
        len
    };
    let cursor: u64 = if end == 0 || end - 1 < anchor {
        anchor
    } else {
        end - 1
    };
    app.files[i].editor.selection = Some(Selection { anchor, cursor });
    assert(app.files@ =~= old(app).files@.update(i as int, app.files@[i as int]));
    WebEffect::Reveal(anchor)
}

fn choose_web_columns(app: &mut HxyApp, scope: ColumnScope, count: u16)
    requires
        old(app).wf(),
    ensures
        final(app).wf(),
        web_columns(*old(app), scope, count, *final(app)),
{
    if count < MIN_COLUMNS {
        return;
    }
    match scope {
        ColumnScope::Global => {
            app.settings.hex_columns = count;
        },
        ColumnScope::Local => {
            if let Some(i) = find_last(app) {
                app.files[i].columns_override = Some(count);
                assert(app.files@ =~= old(app).files@.update(i as int, app.files@[i as int]));
            }
        },
    }
}

fn pick_web_side(app: &mut HxyApp, side: CompareSide, source: TabSource) -> (r: WebEffect)
    requires
        old(app).wf(),
        old(app).next_compare_id < u64::MAX,
    ensures
        final(app).wf(),
        web_side_picked(*old(app), side, source, r, *final(app)),
{
    match pick_side(app, side, source) {
        Effect::Compare { first, second } => match spawn_compare_wasm(app, first, second) {
            Some(c) => WebEffect::Compare(c),
            None => WebEffect::Nothing,
        },
        _ => WebEffect::Nothing,
    }
}

fn focus_web_file(app: &mut HxyApp, id: FileId)
    requires
        old(app).wf(),
    ensures
        final(app).wf(),
        web_focused(*old(app), id, *final(app)),
{
    if let Some(at) = app.dock.find_tab(&DockTab::Outer(Tab::File(id))) {
        app.dock.set_active_tab(at);
    }
    app.last_active_file = Some(id);
}

/// Whether it was done what was picked in the palette.
pub open spec fn web_outcome_applied(
    before: HxyApp,
    outcome: Outcome,
    r: WebEffect,
    after: HxyApp,
) -> bool {
    &&& match outcome {
        Outcome::Picked(action) => web_action_done(before, action, r, after),
        Outcome::Dismissed(_) => r is Nothing && after == shut(before),
    }
}

/// Does what was picked in the palette, or shuts it where nothing was.
#[verifier::rlimit(40)]
#[verifier::spinoff_prover]
pub fn apply_wasm_palette_outcome(app: &mut HxyApp, outcome: Outcome) -> (r: WebEffect)
    requires
        old(app).wf(),
        old(app).next_file_id < u64::MAX,
        old(app).next_workspace_id < u64::MAX,
        old(app).next_compare_id < u64::MAX,
        old(app).files@.len() + old(app).open_tabs@.len() + old(app).mounts@.len() < u64::MAX,
    ensures
        final(app).wf(),
        web_outcome_applied(*old(app), outcome, r, *final(app)),
{
    let action = match outcome {
        Outcome::Picked(action) => action,
        Outcome::Dismissed(_) => {
            app.palette.close();
            return WebEffect::Nothing;
        },
    };
    if let Action::SwitchMode(mode) = action {
        app.palette.open_at(mode);
        return WebEffect::Nothing;
    }
    app.palette.close();
    match action {
        Action::SetVirtualBase(base) => {
            set_virtual_base(app, base);
            WebEffect::Nothing
        },
        Action::InvokeCommand(c) => invoke_web_command(app, c),
        Action::FocusFile(id) => {
            focus_web_file(app, id);
            WebEffect::Nothing
        },
        Action::FocusTab(tab) => show_web_tab(app, tab),
        Action::GoToOffset(target) => go_to_web_offset(app, target),
        Action::SetSelection { start, end_exclusive } => select_web_range(
            app,
            start,
            end_exclusive,
        ),
        Action::SetColumns { scope, count } => {
            choose_web_columns(app, scope, count);
            WebEffect::Nothing
        },
        Action::CompareSelectSource { side, source } => pick_web_side(app, side, source),
        _ => WebEffect::Nothing,
    }
}

/// Whether a key of the palette was answered.
pub open spec fn web_key_answered(
    before: HxyApp,
    mode: Mode,
    after: HxyApp,
) -> bool {
    &&& if before.palette.open {
        after == shut(before)
    } else {
        mode_shown(before, mode, after)
    }
}

/// Opens the palette in a mode by a key, or shuts it.
pub fn web_palette_key(app: &mut HxyApp, mode: Mode)
    requires
        old(app).wf(),
    ensures
        final(app).wf(),
        web_key_answered(*old(app), mode, *final(app)),
{
    if app.palette.is_open() {
        app.palette.close();
    } else {
        app.palette.open_at(mode);
    }
}

/// Whether a tab can be closed by its cross.
pub fn web_closeable(tab: Tab) -> (r: bool)
    ensures
        r == (tab is File),
{
    matches!(tab, Tab::File(_))
}

/// Whether a tab inside a workspace can be closed by its cross.
pub fn web_inner_closeable(tab: WorkspaceTab) -> (r: bool)
    ensures
        r == (tab is Entry || tab is VfsTree),
{
    matches!(tab, WorkspaceTab::Entry(_) | WorkspaceTab::VfsTree)
}

/// Whether a file is the one to close at the click on a cross.
pub open spec fn cross_clicked(
    tab: DockTab,
    r: Option<FileId>,
) -> bool {
    &&& r == (match tab {
        DockTab::Outer(Tab::File(id)) => Some(id),
        DockTab::Inner(WorkspaceTab::Entry(id)) => Some(id),
        _ => None,
    })
}

/// The file to close at the click on a tab's cross. Any other tab goes at once.
pub fn on_web_close(tab: DockTab) -> (r: Option<FileId>)
    ensures
        cross_clicked(tab, r),
{
    match tab {
        DockTab::Outer(Tab::File(id)) => Some(id),
        DockTab::Inner(WorkspaceTab::Entry(id)) => Some(id),
        _ => None,
    }
}

/// The key of the message that is the title of a tool's tab, and the file
/// that the tool is about.
pub open spec fn tool_key(tab: Tab) -> Option<(Seq<char>, FileId)> {
    match tab {
        Tab::Entropy(id) => Some(("tab-entropy"@, id)),
        Tab::Strings(id) => Some(("tab-strings"@, id)),
        Tab::Checksums(id) => Some(("tab-checksums"@, id)),
        _ => None,
    }
}

/// The title of a tab of the dock. A tool whose file is gone says so.
pub open spec fn web_title_view(app: HxyApp, tab: Tab, sides: Option<(String, String)>)
    -> TitleView {
    match tool_key(tab) {
        Some((key, id)) => if file_at(app.files@, id) is None {
            plain_title(LabelView::Args(key, seq![("name"@, "(missing)"@)]))
        } else {
            title_view(app, tab, sides)
        },
        None => title_view(app, tab, sides),
    }
}

/// Writes the title of a tab of the dock.
pub fn web_title(app: &HxyApp, tab: Tab, sides: Option<(String, String)>) -> (r: TabTitle)
    ensures
        r@ == web_title_view(*app, tab, sides),
{
    let (key, id) = match tab {
        Tab::Entropy(id) => ("tab-entropy", id),
        Tab::Strings(id) => ("tab-strings", id),
        Tab::Checksums(id) => ("tab-checksums", id),
        _ => {
            return title(app, tab, sides);
        },
    };
    match find_file(&app.files, id) {
        Some(_) => title(app, tab, sides),
        None => titled(label_arg(key, "name", "(missing)".to_owned())),
    }
}

/// The title of a tab inside a workspace.
pub open spec fn web_inner_title_view(app: HxyApp, editor_id: FileId, tab: WorkspaceTab)
    -> TitleView {
    plain_title(
        LabelView::Text(
            match tab {
                WorkspaceTab::VfsTree => "VFS"@,
                WorkspaceTab::Editor => name_or(app, editor_id, "editor-"@),
                WorkspaceTab::Entry(id) => name_or(app, id, "entry-"@),
            },
        ),
    )
}

/// The name of a file, or its number where it is gone.
pub open spec fn name_or(app: HxyApp, id: FileId, prefix: Seq<char>) -> Seq<char> {
    match file_at(app.files@, id) {
        Some(i) => app.files@[i].display_name@,
        None => prefix + dec(id.0 as nat),
    }
}

fn name_or_number(app: &HxyApp, id: FileId, prefix: &str) -> (r: String)
    ensures
        r@ == name_or(*app, id, prefix@),
{
    match find_file(&app.files, id) {
        Some(i) => app.files[i].display_name.clone(),
        None => numbered(prefix, id.0),
    }
}

/// Writes the title of a tab inside a workspace.
pub fn web_inner_title(app: &HxyApp, editor_id: FileId, tab: WorkspaceTab) -> (r: TabTitle)
    ensures
        r@ == web_inner_title_view(*app, editor_id, tab),
{
    let text = match tab {
        WorkspaceTab::VfsTree => "VFS".to_owned(),
        WorkspaceTab::Editor => name_or_number(app, editor_id, "editor-"),
        WorkspaceTab::Entry(id) => name_or_number(app, id, "entry-"),
    };
    titled(Label::Text(text))
}

/// Every pick closes the palette but one that leads into another mode, and one of the
/// first side of a comparison. To leave it without a pick only closes it.
pub proof fn law_web_pick_closes_palette(
    before: HxyApp,
    outcome: Outcome,
    r: WebEffect,
    after: HxyApp,
)
    requires
        web_outcome_applied(before, outcome, r, after),
    ensures
        outcome is Dismissed ==> !after.palette.open && r is Nothing && after.files == before.files
            && after.dock == before.dock,
        outcome matches Outcome::Picked(action) ==> (action is NoOp ==> !after.palette.open && r
            is Nothing && after.files == before.files && after.dock == before.dock),
        outcome matches Outcome::Picked(action) ==> (action matches Action::SwitchMode(mode)
            ==> after.palette.open && after.palette.mode == mode && after.palette.query@.len() == 0
            && after.files == before.files),
        outcome matches Outcome::Picked(action) ==> (action is GoToOffset || action is SetSelection
            || action is SetColumns || action is FocusFile || action is FocusTab
            ==> !after.palette.open),
{
}

/// Picking an offset puts the caret of the file that was last focused there, or on the
/// last byte where the file is shorter; picking a range inside the file selects exactly
/// that range. The place is to be seen, and no byte changes.
pub proof fn law_web_place_is_gone_to(
    before: HxyApp,
    target: u64,
    start: u64,
    end: u64,
    went: WebEffect,
    at_target: HxyApp,
    selected: WebEffect,
    with_range: HxyApp,
    i: int,
    k: int,
)
    requires
        before.wf(),
        0 <= i < before.files@.len(),
        before.last_active_file == Some(before.files@[i].id),
        web_action_done(before, Action::GoToOffset(target), went, at_target),
        web_action_done(
            before,
            Action::SetSelection { start, end_exclusive: end },
            selected,
            with_range,
        ),
    ensures
        ({
            let len = before.files@[i].editor.bytes@.len();
            &&& at_target.files@[i].editor.selection matches Some(sel) && sel.anchor == sel.cursor
                && went == WebEffect::Reveal(sel.cursor) && (target < len ==> sel.cursor == target)
                && (target >= len && len > 0 ==> sel.cursor + 1 == len)
            &&& at_target.files@[i].editor.bytes == before.files@[i].editor.bytes
            &&& start < end && end <= len ==> (with_range.files@[i].editor.selection matches Some(
                sel,
            ) && sel.anchor == start && sel.cursor + 1 == end) && selected == WebEffect::Reveal(
                start,
            )
            &&& end <= start ==> with_range.files == before.files && selected is Nothing
            &&& with_range.files@[i].editor.bytes == before.files@[i].editor.bytes
            &&& 0 <= k < before.files@.len() && k != i ==> at_target.files@[k] == before.files@[k]
                && with_range.files@[k] == before.files@[k]
        }),
{
    crate::session::lemma_file_at(before.files@, before.files@[i].id, i);
}

/// A number of columns goes to the file that was last focused or to the preferences, as
/// was asked for; zero changes neither. A file that is picked is the active one.
pub proof fn law_web_columns_go_where_asked(
    before: HxyApp,
    count: u16,
    one: HxyApp,
    all: HxyApp,
    i: int,
    k: int,
)
    requires
        before.wf(),
        0 <= i < before.files@.len(),
        before.last_active_file == Some(before.files@[i].id),
        web_columns(before, ColumnScope::Local, count, one),
        web_columns(before, ColumnScope::Global, count, all),
    ensures
        count == 0 ==> one == before && all == before,
        count >= 1 ==> one.files@[i].columns_override == Some(count) && one.settings
            == before.settings && all.settings.hex_columns == count && all.files == before.files,
        0 <= k < before.files@.len() && k != i ==> one.files@[k] == before.files@[k],
{
    crate::session::lemma_file_at(before.files@, before.files@[i].id, i);
}

/// A file that is picked is the active one from then on, and its tab is in front of its
/// pane. The second side of a comparison is compared with the first one that was picked.
pub proof fn law_web_picks_are_taken(
    before: HxyApp,
    id: FileId,
    r: WebEffect,
    focused: HxyApp,
    first: TabSource,
    second: TabSource,
    c: CompareSession,
    compared: HxyApp,
    i: int,
    j: int,
)
    requires
        before.wf(),
        web_action_done(before, Action::FocusFile(id), r, focused),
        before.palette.compare_first == Some(first),
        web_side_picked(before, CompareSide::B, second, WebEffect::Compare(c), compared),
        0 <= i < before.files@.len(),
        0 <= j < before.files@.len(),
        first@ == SourceView::Filesystem(memory_path_of(before.files@[i].id)),
        second@ == SourceView::Filesystem(memory_path_of(before.files@[j].id)),
    ensures
        focused.last_active_file == Some(id) && focused.files == before.files,
        c.first.bytes@ == before.files@[i].editor.bytes@,
        c.second.bytes@ == before.files@[j].editor.bytes@,
        compared.palette.compare_first is None,
{
    law_memory_path_found(before.files@[i].id);
    law_memory_path_found(before.files@[j].id);
    crate::session::lemma_file_at(before.files@, before.files@[i].id, i);
    crate::session::lemma_file_at(before.files@, before.files@[j].id, j);
}

/// Each command shows its own tab: that of the tool, and for tools of files that of the
/// file that was last focused.
pub proof fn law_web_command_shows_its_tab(id: FileId)
    ensures
        tab_of_command(PaletteCommand::ToggleInspector, None) == Some(Tab::Inspector),
        tab_of_command(PaletteCommand::ToggleConsole, None) == Some(Tab::Console),
        tab_of_command(PaletteCommand::ToggleSettings, None) == Some(Tab::Settings),
        tab_of_command(PaletteCommand::ToggleMemory, None) == Some(Tab::Memory),
        tab_of_command(PaletteCommand::FindStringsWholeFile, Some(id)) == Some(Tab::Strings(id)),
        tab_of_command(PaletteCommand::FindStringsSelection, Some(id)) == Some(Tab::Strings(id)),
        tab_of_command(PaletteCommand::CalculateChecksumsWholeFile, Some(id)) == Some(
            Tab::Checksums(id),
        ),
        tab_of_command(PaletteCommand::CalculateChecksumsSelection, Some(id)) == Some(
            Tab::Checksums(id),
        ),
        tab_of_command(PaletteCommand::ComputeEntropy, Some(id)) == Some(Tab::Entropy(id)),
        tab_of_command(PaletteCommand::FindStringsWholeFile, None) is None,
        tab_of_command(PaletteCommand::ComputeEntropy, None) is None,
{
}

/// Commands act on the file that was last focused: a download holds its name and its
/// bytes, its lock flips and nothing else of it, numbers and addresses are its own, and
/// tools for what is selected get its selection. A new file is empty.
pub proof fn law_web_commands_act_on_last_file(
    before: HxyApp,
    command: PaletteCommand,
    r: WebEffect,
    after: HxyApp,
    i: int,
    k: int,
)
    requires
        before.wf(),
        before.files@.len() < u64::MAX,
        0 <= i < before.files@.len(),
        before.last_active_file == Some(before.files@[i].id),
        web_command_done(before, command, r, after),
    ensures
        ({
            let file = before.files@[i];
            &&& command is SaveAsDownload ==> (r matches WebEffect::Download { name, bytes } && name@
                == file.display_name@ && bytes@ == file.editor.bytes@) && after == before
            &&& command is ToggleEditMode ==> (file.editor.edit_mode is Readonly
                ==> after.files@[i].editor.edit_mode is Mutable) && (file.editor.edit_mode is Mutable
                ==> after.files@[i].editor.edit_mode is Readonly) && after.files@[i].editor.bytes
                == file.editor.bytes && (0 <= k < before.files@.len() && k != i ==> after.files@[k]
                == before.files@[k])
            &&& command is CopyCaretAddress ==> (file.editor.selection matches Some(sel) ==> (
            file.virtual_base matches Some(base) ==> r == (WebEffect::CopyAddress {
                offset: sel.cursor,
                base,
            })))
            &&& command is CopyCaretOffset ==> (file.editor.selection matches Some(sel) ==> (
            r matches WebEffect::CopyText(t) && t@ == crate::hexview::offset_text(
                sel.cursor,
                before.settings.offset_base,
            )))
            &&& command is CopyFileLength ==> (r matches WebEffect::CopyText(t) && t@
                == crate::hexview::offset_text(
                file.editor.bytes@.len() as u64,
                before.settings.offset_base,
            ))
            &&& command is FindStringsSelection ==> (file.editor.selection matches Some(sel) ==> (
            r matches WebEffect::StringsIn { file_id, part, split: _ } && file_id == file.id && part
                == sel))
            &&& command is CalculateChecksumsSelection ==> (file.editor.selection matches Some(sel)
                ==> (r matches WebEffect::ChecksumsOf { file_id, part, split: _ } && file_id
                == file.id && part == sel))
            &&& command is BrowseArchive ==> (file.handler is Some ==> r == WebEffect::Browse(
                file.id,
            )) && (file.handler is None ==> r is Nothing)
            &&& command is OpenFile ==> r is OpenFiles
            &&& command is ReopenClosedTab ==> r is ReopenClosed
            &&& command is NewFile ==> after.files@.len() == before.files@.len() + 1
                && after.files@.last().editor.bytes@.len() == 0
                && after.files@.last().display_name@ == "Untitled"@ && after.last_active_file
                == Some(after.files@.last().id)
            &&& command is Undo ==> (r matches WebEffect::Shared(e) && command_done(
                before,
                PaletteCommand::Undo,
                e,
                after,
            ))
        }),
{
    crate::session::lemma_file_at(before.files@, before.files@[i].id, i);
}

/// A click on a cross closes the file of that tab, docked or inside a workspace; the
/// palette's key opens it at its mode and closes it again; the title of a tab is the
/// name of its file while that is open.
pub proof fn law_web_tabs_are_their_files(
    app: HxyApp,
    mode: Mode,
    opened: HxyApp,
    id: FileId,
    of_file: Option<FileId>,
    of_entry: Option<FileId>,
    tab: Tab,
    of_tab: Option<FileId>,
    i: int,
)
    requires
        app.wf(),
        web_key_answered(app, mode, opened),
        cross_clicked(DockTab::Outer(Tab::File(id)), of_file),
        cross_clicked(DockTab::Inner(WorkspaceTab::Entry(id)), of_entry),
        cross_clicked(DockTab::Outer(tab), of_tab),
        0 <= i < app.files@.len(),
    ensures
        of_file == Some(id) && of_entry == Some(id),
        !(tab is File) ==> of_tab is None,
        opened.palette.open == !app.palette.open,
        opened.palette.open ==> opened.palette.mode == mode,
        opened.files == app.files,
        name_or(app, app.files@[i].id, "editor-"@) == app.files@[i].display_name@,
        web_inner_title_view(app, id, WorkspaceTab::Entry(app.files@[i].id)).label
            == LabelView::Text(app.files@[i].display_name@),
        web_inner_title_view(app, app.files@[i].id, WorkspaceTab::Editor).label == LabelView::Text(
            app.files@[i].display_name@,
        ),
{
    crate::session::lemma_file_at(app.files@, app.files@[i].id, i);
}

/// A tool's tab is titled by the name of its file, and by a mark where the file is gone.
pub proof fn law_web_tool_title_names_its_file(
    app: HxyApp,
    sides: Option<(String, String)>,
    id: FileId,
    i: int,
)
    requires
        app.wf(),
    ensures
        0 <= i < app.files@.len() && app.files@[i].id == id ==> web_title_view(
            app,
            Tab::Strings(id),
            sides,
        ).label == LabelView::Args("tab-strings"@, seq![("name"@, app.files@[i].display_name@)])
            && web_title_view(app, Tab::Checksums(id), sides).label == LabelView::Args(
            "tab-checksums"@,
            seq![("name"@, app.files@[i].display_name@)],
        ) && web_title_view(app, Tab::Entropy(id), sides).label == LabelView::Args(
            "tab-entropy"@,
            seq![("name"@, app.files@[i].display_name@)],
        ),
        file_at(app.files@, id) is None ==> web_title_view(app, Tab::Strings(id), sides).label
            == LabelView::Args("tab-strings"@, seq![("name"@, "(missing)"@)]),
{
    if 0 <= i < app.files@.len() && app.files@[i].id == id {
        crate::session::lemma_file_at(app.files@, id, i);
    }
}

} // verus!

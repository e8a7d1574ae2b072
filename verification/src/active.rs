//! Commands on the active file: history, edit mode, clipboard, caret and
//! columns, and what the palette knows of it.

use vstd::prelude::*;
use vstd::string::*;
use crate::console::ConsoleSeverity;
use crate::copy::{copy_formatted_offset, do_copy, CopyKind, CopyRequest, OffsetCopy};
#[allow(unused_imports)]
use crate::copy::{asks_copy, offset_copy_text, selected_bytes};
use crate::dock_ops::SplitRequest;
use crate::editor::{
    clamp_offset,
    copy_range,
    paste_bytes_at_cursor,
    redo_and_jump,
    snapshot_inspector_bytes,
    undo_and_jump,
    EditMode,
    HexEditor,
    Selection,
};
#[allow(unused_imports)]
use crate::editor::{clamped, inspected, pasted_to, redone_to, undone_to};
use crate::hexview::{selection_is_scalar, selection_nonempty};
#[allow(unused_imports)]
use crate::hexview::{has_selection, selects_scalar};
use crate::palette::ColumnScope;
use crate::palette_rows::{CopyContext, HistoryContext, OffsetContext};
#[allow(unused_imports)]
use crate::panels::message_logged;
use crate::search::toggle_local_search;
#[allow(unused_imports)]
use crate::search::{bar_toggled, bytes_view, search_view};
use crate::session::{active_file_id, find_file, HxyApp, OpenFile};
#[allow(unused_imports)]
use crate::session::{active_file, after_active_file, file_at};
use crate::settings::{AppSettings, MIN_COLUMNS};
use crate::text::{join2, lower_text};
#[allow(unused_imports)]
use crate::text::lowered;

verus! {

/// Place of the active file.
pub open spec fn active_place(app: HxyApp) -> Option<int> {
    match active_file(app) {
        Some(id) => file_at(app.files@, id),
        None => None,
    }
}

/// Finds the active file among the open ones.
pub fn find_active(app: &mut HxyApp) -> (r: Option<usize>)
    requires
        old(app).wf(),
    ensures
        final(app).wf(),
        *final(app) == after_active_file(*old(app)),
        match (active_place(*old(app)), r) {
            (Some(a), Some(b)) => a == b && b < old(app).files@.len(),
            (None, None) => true,
            _ => false,
        },
{
    match active_file_id(app) {
        Some(id) => find_file(&app.files, id),
        None => None,
    }
}

/// Whether one editor is another in which the file at a place changed.
pub open spec fn file_replaced(before: HxyApp, i: int, after: HxyApp) -> bool {
    &&& 0 <= i < before.files@.len()
    &&& after == (HxyApp { files: after.files, ..before })
    &&& after.files@.len() == before.files@.len()
    &&& after.files@ == before.files@.update(i, after.files@[i])
}

/// An editor in which a file changed but for its id, and fits its history,
/// is well formed.
proof fn lemma_file_replaced_wf(before: HxyApp, i: int, after: HxyApp)
    requires
        before.wf(),
        file_replaced(before, i, after),
        after.files@[i].id == before.files@[i].id,
        after.files@[i].editor.wf(),
    ensures
        after.wf(),
{
}

/// Whether one file is another in which only the bytes, the selection and the
/// history changed.
pub open spec fn edited(a: OpenFile, b: OpenFile) -> bool {
    b == (OpenFile { editor: b.editor, ..a })
}

/// Whether one editor is another in which the last edit of the active file was
/// taken back.
pub open spec fn active_undone(before: HxyApp, after: HxyApp) -> bool {
    match active_place(before) {
        Some(i) => file_replaced(after_active_file(before), i, after) && edited(
            before.files@[i],
            after.files@[i],
        ) && undone_to(before.files@[i].editor, after.files@[i].editor),
        None => after == after_active_file(before),
    }
}

/// Takes the last edit of the active file back.
pub fn undo_active_file(app: &mut HxyApp)
    requires
        old(app).wf(),
    ensures
        final(app).wf(),
        active_undone(*old(app), *final(app)),
{
    if let Some(i) = find_active(app) {
        let ghost mid = *app;
        undo_and_jump(&mut app.files[i].editor);
        proof {
            assert(file_replaced(mid, i as int, *app));
            lemma_file_replaced_wf(mid, i as int, *app);
        }
    }
}

/// Whether one editor is another in which the edit of the active file that was
/// last taken back was done again.
pub open spec fn active_redone(before: HxyApp, after: HxyApp) -> bool {
    match active_place(before) {
        Some(i) => file_replaced(after_active_file(before), i, after) && edited(
            before.files@[i],
            after.files@[i],
        ) && redone_to(before.files@[i].editor, after.files@[i].editor),
        None => after == after_active_file(before),
    }
}

/// Does the edit of the active file that was last taken back again.
pub fn redo_active_file(app: &mut HxyApp)
    requires
        old(app).wf(),
    ensures
        final(app).wf(),
        active_redone(*old(app), *final(app)),
{
    if let Some(i) = find_active(app) {
        let ghost mid = *app;
        redo_and_jump(&mut app.files[i].editor);
        proof {
            assert(file_replaced(mid, i as int, *app));
            lemma_file_replaced_wf(mid, i as int, *app);
        }
    }
}

/// The editor of a file after its edit mode was toggled; a locked file keeps
/// its mode.
pub open spec fn mode_toggled(file: OpenFile) -> OpenFile {
    if file.locked {
        file
    } else {
        OpenFile {
            editor: HexEditor {
                edit_mode: file.editor.edit_mode.spec_toggled(),
                ..file.editor
            },
            ..file
        }
    }
}

/// Toggling the edit mode twice gives the file as it was.
pub proof fn law_edit_mode_toggle_back(file: OpenFile)
    ensures
        mode_toggled(mode_toggled(file)) == file,
{
}

/// Whether one editor is another in which the edit mode of the active file was
/// toggled.
pub open spec fn active_mode_toggled(before: HxyApp, after: HxyApp) -> bool {
    match active_place(before) {
        Some(i) => file_replaced(after_active_file(before), i, after) && after.files@[i]
            == mode_toggled(before.files@[i]),
        None => after == after_active_file(before),
    }
}

/// Toggles whether the active file can be edited. One that must stay read-only
/// stays so.
pub fn toggle_active_edit_mode(app: &mut HxyApp)
    requires
        old(app).wf(),
    ensures
        final(app).wf(),
        active_mode_toggled(*old(app), *final(app)),
{
    if let Some(i) = find_active(app) {
        let ghost mid = *app;
        if !app.files[i].locked {
            let mode = app.files[i].editor.edit_mode.toggled();
            app.files[i].editor.edit_mode = mode;
        }
        proof {
            assert(app.files@ =~= mid.files@.update(i as int, app.files@[i as int]));
            assert(file_replaced(mid, i as int, *app));
            lemma_file_replaced_wf(mid, i as int, *app);
        }
    }
}

/// Whether the active file accepts what is pasted.
pub open spec fn accepts_paste(app: HxyApp) -> bool {
    active_place(app) matches Some(i) && app.files@[i].editor.edit_mode is Mutable
}

/// Tells whether the active file accepts what is pasted, so that the clipboard
/// is to be read.
pub fn paste_wanted(app: &mut HxyApp) -> (r: bool)
    requires
        old(app).wf(),
    ensures
        final(app).wf(),
        *final(app) == after_active_file(*old(app)),
        r == accepts_paste(*old(app)),
{
    match find_active(app) {
        Some(i) => app.files[i].editor.edit_mode == EditMode::Mutable,
        None => false,
    }
}

/// Whether one editor is another after the clipboard was pasted into the
/// active file. What could not be read as bytes is told in the console. A file
/// that cannot be edited stays as it is.
pub open spec fn clipboard_pasted(
    before: HxyApp,
    clip: Result<Vec<u8>, String>,
    split: Option<SplitRequest>,
    after: HxyApp,
) -> bool {
    let mid = after_active_file(before);
    match active_place(before) {
        Some(i) => if before.files@[i].editor.edit_mode is Mutable {
            match clip {
                Ok(bytes) => split is None && file_replaced(mid, i, after) && edited(
                    before.files@[i],
                    after.files@[i],
                ) && pasted_to(before.files@[i].editor, bytes@, after.files@[i].editor),
                Err(e) => message_logged(
                    mid,
                    ConsoleSeverity::Warning,
                    "Paste as hex"@,
                    "clipboard text is not valid hex: "@ + e@,
                    split,
                    after,
                ),
            }
        } else {
            split is None && after == mid
        },
        None => split is None && after == mid,
    }
}

/// Pastes the clipboard into the active file at its caret.
pub fn paste_active_file(app: &mut HxyApp, clip: Result<Vec<u8>, String>) -> (r: Option<
    SplitRequest,
>)
    requires
        old(app).wf(),
        active_place(*old(app)) matches Some(i) ==> (clip matches Ok(bytes) ==> old(
            app,
        ).files@[i].editor.bytes@.len() + bytes@.len() <= usize::MAX),
    ensures
        final(app).wf(),
        clipboard_pasted(*old(app), clip, r, *final(app)),
{
    let i = match find_active(app) {
        Some(i) => i,
        None => return None,
    };
    if app.files[i].editor.edit_mode != EditMode::Mutable {
        return None;
    }
    match clip {
        Ok(bytes) => {
            let ghost mid = *app;
            paste_bytes_at_cursor(&mut app.files[i].editor, bytes);
            proof {
                assert(file_replaced(mid, i as int, *app));
                lemma_file_replaced_wf(mid, i as int, *app);
            }
            None
        },
        Err(e) => {
            let message = join2("clipboard text is not valid hex: ", e.as_str());
            app.console_log(ConsoleSeverity::Warning, "Paste as hex".to_owned(), message)
        },
    }
}

/// What copying from a file in a format asks for.
pub open spec fn copy_asked(editor: HexEditor, kind: CopyKind, r: Option<CopyRequest>) -> bool {
    match r {
        Some(request) => editor.selection matches Some(sel) && selected_bytes(editor, sel) matches
            Some(bytes) && bytes.len() > 0 && (kind.is_value() ==> bytes.len() <= 8) && asks_copy(
            request,
            kind,
            bytes,
            sel.spec_start(),
        ),
        None => match editor.selection {
            Some(sel) => match selected_bytes(editor, sel) {
                Some(bytes) => bytes.len() == 0 || (kind.is_value() && bytes.len() > 8),
                None => true,
            },
            None => true,
        },
    }
}

/// Plans the copy of what is selected in the active file.
pub fn copy_active_file(app: &mut HxyApp, kind: CopyKind) -> (r: Option<CopyRequest>)
    requires
        old(app).wf(),
    ensures
        final(app).wf(),
        *final(app) == after_active_file(*old(app)),
        match active_place(*old(app)) {
            Some(i) => copy_asked(old(app).files@[i].editor, kind, r),
            None => r is None,
        },
{
    match find_active(app) {
        Some(i) => do_copy(&app.files[i].editor, kind),
        None => None,
    }
}

/// The text that copying a number about the active file gives.
pub open spec fn active_offset_text(app: HxyApp, kind: OffsetCopy) -> Option<Seq<char>> {
    match active_place(app) {
        Some(i) => offset_copy_text(
            kind,
            app.files@[i].editor.selection,
            app.files@[i].editor.bytes@.len() as u64,
            app.settings.offset_base,
        ),
        None => None,
    }
}

/// Whether a text is what is asked for, and none where nothing is.
pub open spec fn text_is(r: Option<String>, text: Option<Seq<char>>) -> bool {
    match (text, r) {
        (Some(a), Some(b)) => a == b@,
        (None, None) => true,
        _ => false,
    }
}

/// Writes a number about the active file for the clipboard.
pub fn copy_active_offset(app: &mut HxyApp, kind: OffsetCopy) -> (r: Option<String>)
    requires
        old(app).wf(),
    ensures
        final(app).wf(),
        *final(app) == after_active_file(*old(app)),
        text_is(r, active_offset_text(*old(app), kind)),
{
    match find_active(app) {
        Some(i) => copy_formatted_offset(
            kind,
            app.files[i].editor.selection,
            app.files[i].editor.source_len(),
            app.settings.offset_base,
        ),
        None => None,
    }
}

/// Whether one editor is another in which the search bar of the active file
/// was toggled.
pub open spec fn active_search_toggled(
    before: HxyApp,
    pattern: Option<Seq<u8>>,
    after: HxyApp,
) -> bool {
    match active_place(before) {
        Some(i) => {
            let a = before.files@[i];
            let b = after.files@[i];
            &&& file_replaced(after_active_file(before), i, after)
            &&& b == (OpenFile { search: b.search, ..a })
            &&& search_view(b.search, a.editor.selection) == bar_toggled(
                search_view(a.search, a.editor.selection),
                pattern,
            )
        },
        None => after == after_active_file(before),
    }
}

/// Opens or closes the search bar of the active file. What its text asks for
/// is taken over when it opens.
pub fn toggle_active_search(app: &mut HxyApp, pattern: Option<Vec<u8>>)
    requires
        old(app).wf(),
    ensures
        final(app).wf(),
        active_search_toggled(*old(app), bytes_view(pattern), *final(app)),
{
    if let Some(i) = find_active(app) {
        let ghost mid = *app;
        let selection = app.files[i].editor.selection;
        toggle_local_search(&mut app.files[i].search, selection, pattern);
        proof {
            assert(file_replaced(mid, i as int, *app));
            lemma_file_replaced_wf(mid, i as int, *app);
        }
    }
}

/// A file with something else selected.
pub open spec fn reselected(file: OpenFile, selection: Option<Selection>) -> OpenFile {
    OpenFile { editor: HexEditor { selection, ..file.editor }, ..file }
}

/// Whether one editor is another in which the active file got a selection,
/// none where nothing is asked for.
pub open spec fn active_reselected(
    before: HxyApp,
    wanted: Option<Selection>,
    after: HxyApp,
) -> bool {
    match (active_place(before), wanted) {
        (Some(i), Some(sel)) => file_replaced(after_active_file(before), i, after)
            && after.files@[i] == reselected(before.files@[i], Some(sel)),
        _ => after == after_active_file(before),
    }
}

fn select_in(app: &mut HxyApp, i: usize, sel: Selection)
    requires
        old(app).wf(),
        i < old(app).files@.len(),
    ensures
        final(app).wf(),
        file_replaced(*old(app), i as int, *final(app)),
        final(app).files@[i as int] == reselected(old(app).files@[i as int], Some(sel)),
{
    app.files[i].editor.selection = Some(sel);
    proof {
        assert(app.files@ =~= old(app).files@.update(i as int, app.files@[i as int]));
        lemma_file_replaced_wf(*old(app), i as int, *app);
    }
}

/// Whether one editor is another in which the caret of the active file went to an
/// offset, or to the last byte where it lies behind the end, and that place is to be
/// seen.
pub open spec fn went_to(before: HxyApp, target: u64, r: Option<u64>, after: HxyApp) -> bool {
    match active_place(before) {
        Some(i) => {
            let at = clamped(target, before.files@[i].editor.bytes@.len());
            r == Some(at) && active_reselected(before, Some(Selection::spec_caret(at)), after)
        },
        None => r is None && after == after_active_file(before),
    }
}

/// Moves the caret of the active file to an offset, or to the last byte where
/// it lies behind the end. Returns the place that is to be seen.
pub fn go_to_offset(app: &mut HxyApp, target: u64) -> (r: Option<u64>)
    requires
        old(app).wf(),
    ensures
        final(app).wf(),
        went_to(*old(app), target, r, *final(app)),
{
    let i = match find_active(app) {
        Some(i) => i,
        None => return None,
    };
    let at: u64 = clamp_offset(target, app.files[i].editor.source_len());
    select_in(app, i, Selection::caret(at));
    Some(at)
}

/// The selection from one offset up to another within a file: nothing in an
/// empty file or for an empty range.
pub open spec fn range_selection(start: u64, end_exclusive: u64, len: nat) -> Option<Selection> {
    if len == 0 || end_exclusive <= start {
        None
    } else {
        Some(
            Selection {
                anchor: clamped(start, len),
                cursor: clamped((end_exclusive - 1) as u64, len),
            },
        )
    }
}

/// A selection of a range lies within the file, from the range's start on.
pub proof fn law_range_selection_in_bounds(start: u64, end_exclusive: u64, len: nat)
    ensures
        range_selection(start, end_exclusive, len) matches Some(sel) ==> sel.anchor <= sel.cursor
            && sel.cursor < len && (end_exclusive <= len ==> sel.anchor == start && sel.cursor
            == end_exclusive - 1),
{
}

/// Whether one editor is another in which a range was selected in the active file,
/// and its start is to be seen.
pub open spec fn range_selected(
    before: HxyApp,
    start: u64,
    end_exclusive: u64,
    r: Option<u64>,
    after: HxyApp,
) -> bool {
    match active_place(before) {
        Some(i) => {
            let wanted = range_selection(
                start,
                end_exclusive,
                before.files@[i].editor.bytes@.len(),
            );
            active_reselected(before, wanted, after) && r == match wanted {
                Some(sel) => Some(sel.anchor),
                None => None,
            }
        },
        None => r is None && after == after_active_file(before),
    }
}

/// Selects a range in the active file. Returns the place that is to be seen.
pub fn set_selection(app: &mut HxyApp, start: u64, end_exclusive: u64) -> (r: Option<u64>)
    requires
        old(app).wf(),
    ensures
        final(app).wf(),
        range_selected(*old(app), start, end_exclusive, r, *final(app)),
{
    let i = match find_active(app) {
        Some(i) => i,
        None => return None,
    };
    let len: u64 = app.files[i].editor.source_len();
    if len == 0 || end_exclusive <= start {
        return None;
    }
    let anchor: u64 = clamp_offset(start, len);
    let cursor: u64 = clamp_offset(end_exclusive - 1, len);
    select_in(app, i, Selection { anchor, cursor });
    Some(anchor)
}

/// Whether one editor is another in which a number of columns was chosen, for
/// the active file or for all. Zero is passed over.
pub open spec fn columns_chosen(
    before: HxyApp,
    scope: ColumnScope,
    count: u16,
    after: HxyApp,
) -> bool {
    if count < MIN_COLUMNS {
        after == before
    } else {
        match scope {
            ColumnScope::Global => after == (HxyApp { settings: after.settings, ..before })
                && after.settings == (AppSettings { hex_columns: count, ..before.settings }),
            ColumnScope::Local => match active_place(before) {
                Some(i) => file_replaced(after_active_file(before), i, after) && after.files@[i]
                    == (OpenFile { columns_override: Some(count), ..before.files@[i] }),
                None => after == after_active_file(before),
            },
        }
    }
}

/// Chooses a number of columns for the active file or for all.
pub fn choose_columns(app: &mut HxyApp, scope: ColumnScope, count: u16)
    requires
        old(app).wf(),
    ensures
        final(app).wf(),
        columns_chosen(*old(app), scope, count, *final(app)),
{
    if count < MIN_COLUMNS {
        return;
    }
    match scope {
        ColumnScope::Global => app.settings.set_columns(count),
        ColumnScope::Local => {
            if let Some(i) = find_active(app) {
                let ghost mid = *app;
                app.files[i].columns_override = Some(count);
                proof {
                    assert(app.files@ =~= mid.files@.update(i as int, app.files@[i as int]));
                    assert(file_replaced(mid, i as int, *app));
                    lemma_file_replaced_wf(mid, i as int, *app);
                }
            }
        },
    }
}

/// What the palette knows of the active file's history.
pub open spec fn history_of(app: HxyApp) -> HistoryContext {
    match active_place(app) {
        Some(i) => HistoryContext {
            can_undo: app.files@[i].editor.undo_stack@.len() > 0,
            can_redo: app.files@[i].editor.redo_stack@.len() > 0,
            can_paste: app.files@[i].editor.edit_mode is Mutable,
            has_active_file: true,
        },
        None => HistoryContext {
            can_undo: false,
            can_redo: false,
            can_paste: false,
            has_active_file: false,
        },
    }
}

/// Tells what the palette is to know of the active file's history.
pub fn history_palette_context(app: &mut HxyApp) -> (r: HistoryContext)
    requires
        old(app).wf(),
    ensures
        final(app).wf(),
        *final(app) == after_active_file(*old(app)),
        r == history_of(*old(app)),
{
    match find_active(app) {
        Some(i) => HistoryContext {
            can_undo: app.files[i].editor.can_undo(),
            can_redo: app.files[i].editor.can_redo(),
            can_paste: app.files[i].editor.edit_mode == EditMode::Mutable,
            has_active_file: true,
        },
        None => HistoryContext {
            can_undo: false,
            can_redo: false,
            can_paste: false,
            has_active_file: false,
        },
    }
}

/// What the palette knows of the active file's selection.
pub open spec fn copy_context_of(app: HxyApp) -> Option<CopyContext> {
    match active_place(app) {
        Some(i) => if has_selection(app.files@[i].editor.selection) {
            Some(CopyContext { scalar_width: selects_scalar(app.files@[i].editor.selection) })
        } else {
            None
        },
        None => None,
    }
}

/// Tells what the palette is to know of the active file's selection.
pub fn copy_palette_context(app: &mut HxyApp) -> (r: Option<CopyContext>)
    requires
        old(app).wf(),
    ensures
        final(app).wf(),
        *final(app) == after_active_file(*old(app)),
        r == copy_context_of(*old(app)),
{
    match find_active(app) {
        Some(i) => {
            let sel = app.files[i].editor.selection;
            if selection_nonempty(sel) {
                Some(CopyContext { scalar_width: selection_is_scalar(sel) })
            } else {
                None
            }
        },
        None => None,
    }
}

/// What the palette knows of the active file's offsets.
pub open spec fn offsets_of(app: HxyApp) -> OffsetContext {
    match active_place(app) {
        Some(i) => OffsetContext {
            cursor: match app.files@[i].editor.selection {
                Some(sel) => sel.cursor,
                None => 0,
            },
            source_len: app.files@[i].editor.bytes@.len() as u64,
            available: true,
            selection: app.files@[i].editor.selection,
            virtual_base: app.files@[i].virtual_base,
        },
        None => OffsetContext {
            cursor: 0,
            source_len: 0,
            available: false,
            selection: None,
            virtual_base: None,
        },
    }
}

/// Tells what the palette is to know of the active file's offsets.
pub fn offset_palette_context(app: &mut HxyApp) -> (r: OffsetContext)
    requires
        old(app).wf(),
    ensures
        final(app).wf(),
        *final(app) == after_active_file(*old(app)),
        r == offsets_of(*old(app)),
{
    match find_active(app) {
        Some(i) => OffsetContext {
            cursor: match app.files[i].editor.selection {
                Some(sel) => sel.cursor,
                None => 0,
            },
            source_len: app.files[i].editor.source_len(),
            available: true,
            selection: app.files[i].editor.selection,
            virtual_base: app.files[i].virtual_base,
        },
        None => OffsetContext {
            cursor: 0,
            source_len: 0,
            available: false,
            selection: None,
            virtual_base: None,
        },
    }
}

/// What templates are ranked by.
pub struct TemplateContext {
    /// The file name's extension, in lower case.
    pub extension: Option<String>,
    pub head: Vec<u8>,
}

/// The first bytes of a file, as many as a window holds.
pub open spec fn head_of(bytes: Seq<u8>, window: usize) -> Seq<u8> {
    if bytes.len() <= window {
        bytes
    } else {
        bytes.take(window as int)
    }
}

fn copy_head(bytes: &Vec<u8>, window: usize) -> (r: Vec<u8>)
    ensures
        r@ == head_of(bytes@, window),
{
    let end: usize = if bytes.len() <= window {
        bytes.len()
    } else {
        window
    };
    let out = copy_range(bytes, 0, end);
    assert(out@ =~= head_of(bytes@, window));
    out
}

/// Whether it is told what templates are ranked by.
pub open spec fn template_context_told(
    before: HxyApp,
    extension: Option<String>,
    window: usize,
    r: TemplateContext,
    after: HxyApp,
) -> bool {
    &&& after == after_active_file(before)
    &&& match active_place(before) {
        Some(i) => r.head@ == head_of(before.files@[i].editor.bytes@, window) && match (
            extension,
            r.extension,
        ) {
            (Some(a), Some(b)) => b@ == lowered(a@),
            (None, None) => true,
            _ => false,
        },
        None => r.head@.len() == 0 && r.extension is None,
    }
}

/// Tells what templates are ranked by for the active file, whose name has an
/// extension: that in lower case, and the first bytes up to a window.
pub fn template_palette_context(app: &mut HxyApp, extension: Option<String>, window: usize)
    -> (r: TemplateContext)
    requires
        old(app).wf(),
    ensures
        final(app).wf(),
        template_context_told(*old(app), extension, window, r, *final(app)),
{
    match find_active(app) {
        Some(i) => TemplateContext {
            extension: match extension {
                Some(e) => Some(lower_text(e.as_str())),
                None => None,
            },
            head: copy_head(&app.files[i].editor.bytes, window),
        },
        None => TemplateContext { extension: None, head: Vec::new() },
    }
}

/// The caret of the active file and the bytes behind it, for the inspector.
pub fn inspect_active(app: &mut HxyApp) -> (r: Option<(u64, Vec<u8>)>)
    requires
        old(app).wf(),
    ensures
        final(app).wf(),
        *final(app) == after_active_file(*old(app)),
        match active_place(*old(app)) {
            Some(i) => inspected(old(app).files@[i].editor, r),
            None => r is None,
        },
{
    match find_active(app) {
        Some(i) => snapshot_inspector_bytes(&app.files[i].editor),
        None => None,
    }
}

/// Going to an offset of the active file parks the caret there, on the last byte
/// where the file is shorter, and scrolls there. No contents change, and no other
/// file.
pub proof fn law_goes_to_offset(before: HxyApp, target: u64, r: Option<u64>, after: HxyApp, i: int)
    requires
        went_to(before, target, r, after),
        active_place(before) == Some(i),
    ensures
        ({
            let len = before.files@[i].editor.bytes@.len();
            let file = after.files@[i];
            &&& file.editor.selection matches Some(sel) && sel.anchor == sel.cursor && r == Some(
                sel.cursor,
            ) && (target < len ==> sel.cursor == target) && (target >= len && len > 0
                ==> sel.cursor + 1 == len)
            &&& file.editor.bytes == before.files@[i].editor.bytes
            &&& file.editor.undo_stack == before.files@[i].editor.undo_stack
            &&& file.editor.redo_stack == before.files@[i].editor.redo_stack
            &&& file.id == before.files@[i].id
        }),
        forall|j: int|
            0 <= j < before.files@.len() && j != i ==> #[trigger] after.files@[j]
                == before.files@[j],
        after.files@.len() == before.files@.len(),
        after.open_tabs == before.open_tabs,
        after.dock == before.dock,
{
}

/// Selecting a range of the active file selects exactly the bytes of that range that
/// the file has, and scrolls to its start. A range without bytes selects nothing new.
pub proof fn law_selects_range(
    before: HxyApp,
    start: u64,
    end_exclusive: u64,
    r: Option<u64>,
    after: HxyApp,
    i: int,
)
    requires
        range_selected(before, start, end_exclusive, r, after),
        active_place(before) == Some(i),
        start < before.files@[i].editor.bytes@.len() || end_exclusive <= start,
    ensures
        ({
            let len = before.files@[i].editor.bytes@.len();
            let file = after.files@[i];
            &&& start < end_exclusive ==> (file.editor.selection matches Some(sel)
                && r == Some(start) && forall|k: int|
                0 <= k < len ==> (sel.anchor <= k <= sel.cursor <==> #[trigger] in_range(
                    k,
                    start as int,
                    end_exclusive as int,
                )))
            &&& end_exclusive <= start ==> r is None && file == before.files@[i]
            &&& file.editor.bytes == before.files@[i].editor.bytes
            &&& file.editor.undo_stack == before.files@[i].editor.undo_stack
        }),
        forall|j: int|
            0 <= j < before.files@.len() && j != i ==> #[trigger] after.files@[j]
                == before.files@[j],
{
}

/// Whether an offset lies in a range whose end does not belong to it.
pub open spec fn in_range(k: int, start: int, end_exclusive: int) -> bool {
    start <= k < end_exclusive
}

/// A number of columns that is chosen for all files is what every file without one
/// of its own is shown with; one that is chosen for the active file is that file's
/// own and leaves all others alone. Zero changes nothing.
pub proof fn law_columns_are_taken(
    before: HxyApp,
    scope: ColumnScope,
    count: u16,
    after: HxyApp,
)
    requires
        columns_chosen(before, scope, count, after),
    ensures
        count == 0 ==> after == before,
        count > 0 && scope is Global ==> after.settings.hex_columns == count && after.files
            == before.files,
        count > 0 && scope is Local ==> after.settings == before.settings && match active_place(
            before,
        ) {
            Some(i) => after.files@[i].columns_override == Some(count) && after.files@[i].editor
                == before.files@[i].editor && forall|j: int|
                0 <= j < before.files@.len() && j != i ==> #[trigger] after.files@[j]
                    == before.files@[j],
            None => after.files == before.files,
        },
{
}

/// A paste goes into the active file and no other, and only where that file accepts
/// edits.
pub proof fn law_paste_goes_into_active_file(
    before: HxyApp,
    bytes: Vec<u8>,
    split: Option<SplitRequest>,
    after: HxyApp,
)
    requires
        clipboard_pasted(before, Ok(bytes), split, after),
    ensures
        match active_place(before) {
            Some(i) => {
                &&& before.files@[i].editor.edit_mode is Readonly ==> after.files == before.files
                &&& before.files@[i].editor.edit_mode is Mutable ==> pasted_to(
                    before.files@[i].editor,
                    bytes@,
                    after.files@[i].editor,
                )
                &&& after.files@.len() == before.files@.len()
                &&& forall|j: int|
                    0 <= j < before.files@.len() && j != i ==> #[trigger] after.files@[j]
                        == before.files@[j]
            },
            None => after.files == before.files,
        },
        after.open_tabs == before.open_tabs,
        after.dock == before.dock,
        split is None,
{
}

/// What is not valid hex changes no file and is told as a warning.
pub proof fn law_bad_hex_changes_nothing(
    before: HxyApp,
    e: String,
    split: Option<SplitRequest>,
    after: HxyApp,
)
    requires
        clipboard_pasted(before, Err(e), split, after),
    ensures
        after.files == before.files,
        active_place(before) matches Some(i) ==> (before.files@[i].editor.edit_mode is Mutable ==> {
            &&& after.console@.len() > 0
            &&& after.console@[after.console@.len() - 1].severity is Warning
            &&& after.console@[after.console@.len() - 1].message@
                =~= "clipboard text is not valid hex: "@ + e@
        }),
{
}

/// Undo and redo act on the active file alone.
pub proof fn law_undo_acts_on_active_file(before: HxyApp, undone: HxyApp, redone: HxyApp)
    requires
        active_undone(before, undone),
        active_redone(before, redone),
    ensures
        match active_place(before) {
            Some(i) => {
                &&& undone_to(before.files@[i].editor, undone.files@[i].editor)
                &&& redone_to(before.files@[i].editor, redone.files@[i].editor)
                &&& undone.files@[i].source == before.files@[i].source
                &&& redone.files@[i].source == before.files@[i].source
                &&& forall|j: int|
                    0 <= j < before.files@.len() && j != i ==> #[trigger] undone.files@[j]
                        == before.files@[j] && redone.files@[j] == before.files@[j]
            },
            None => undone.files == before.files && redone.files == before.files,
        },
{
}

/// Toggling the edit mode of the active file turns it around, but for a file that is
/// locked, and changes nothing else.
pub proof fn law_edit_mode_toggles(before: HxyApp, after: HxyApp, i: int)
    requires
        active_mode_toggled(before, after),
        active_place(before) == Some(i),
    ensures
        before.files@[i].locked ==> after.files@[i] == before.files@[i],
        !before.files@[i].locked ==> (after.files@[i].editor.edit_mode is Mutable
            <==> before.files@[i].editor.edit_mode is Readonly),
        after.files@[i].editor.bytes == before.files@[i].editor.bytes,
        after.files@[i].editor.selection == before.files@[i].editor.selection,
        after.files@[i].editor.undo_stack == before.files@[i].editor.undo_stack,
        forall|j: int|
            0 <= j < before.files@.len() && j != i ==> #[trigger] after.files@[j]
                == before.files@[j],
{
}

/// What the palette knows of the active file is true of it.
pub proof fn law_palette_knows_active_file(app: HxyApp)
    ensures
        match active_place(app) {
            Some(i) => {
                let editor = app.files@[i].editor;
                &&& history_of(app).has_active_file && offsets_of(app).available
                &&& history_of(app).can_undo <==> editor.undo_stack@.len() > 0
                &&& history_of(app).can_redo <==> editor.redo_stack@.len() > 0
                &&& history_of(app).can_paste <==> editor.edit_mode is Mutable
                &&& accepts_paste(app) <==> editor.edit_mode is Mutable
                &&& offsets_of(app).source_len as int == editor.bytes@.len() as u64
                &&& offsets_of(app).selection == editor.selection
                &&& offsets_of(app).virtual_base == app.files@[i].virtual_base
                &&& editor.selection matches Some(sel) ==> offsets_of(app).cursor == sel.cursor
                &&& editor.selection is None ==> offsets_of(app).cursor == 0
            },
            None => {
                &&& !history_of(app).has_active_file && !offsets_of(app).available
                &&& !history_of(app).can_undo && !history_of(app).can_redo
                &&& !history_of(app).can_paste && !accepts_paste(app)
            },
        },
{
}

/// What copying from the active file asks for is what copying from that file does.
pub proof fn law_active_copy_is_that_of_file(
    editor: HexEditor,
    kind: CopyKind,
    r: Option<CopyRequest>,
)
    ensures
        copy_asked(editor, kind, r) <==> crate::copy::copy_planned(editor, kind, r),
{
}

/// Templates are ranked by the first bytes of the active file, as many as the window
/// holds, and by the extension with its letters A to Z in lower case.
pub proof fn law_templates_are_ranked_by_file(
    before: HxyApp,
    extension: Option<String>,
    window: usize,
    r: TemplateContext,
    after: HxyApp,
    i: int,
    k: int,
)
    requires
        template_context_told(before, extension, window, r, after),
        active_place(before) == Some(i),
    ensures
        r.head@.len() == (if before.files@[i].editor.bytes@.len() < window {
            before.files@[i].editor.bytes@.len()
        } else {
            window as nat
        }),
        0 <= k < r.head@.len() ==> r.head@[k] == before.files@[i].editor.bytes@[k],
        extension is None ==> r.extension is None,
        extension matches Some(e) ==> (r.extension matches Some(lower) && lower@ == lowered(e@)),
        after.files == before.files,
{
}

/// Copying a number about the active file tells the one that was asked for, in the base
/// of the preferences.
pub proof fn law_active_number_is_copied(app: HxyApp, i: int)
    requires
        active_place(app) == Some(i),
        app.files@[i].editor.bytes@.len() <= u64::MAX,
    ensures
        active_offset_text(app, OffsetCopy::FileLength) == Some(
            crate::hexview::offset_text(
                app.files@[i].editor.bytes@.len() as u64,
                app.settings.offset_base,
            ),
        ),
        app.files@[i].editor.selection matches Some(sel) ==> active_offset_text(
            app,
            OffsetCopy::Caret,
        ) == Some(crate::hexview::offset_text(sel.cursor, app.settings.offset_base)),
        app.files@[i].editor.selection is None ==> active_offset_text(app, OffsetCopy::Caret)
            is None,
{
}

/// Copies are offered where bytes of the active file are selected, and those of numbers
/// where as many are as a machine integer has.
pub proof fn law_copies_are_offered_for_selection(app: HxyApp, i: int)
    requires
        active_place(app) == Some(i),
    ensures
        app.files@[i].editor.selection is None ==> copy_context_of(app) is None,
        app.files@[i].editor.selection matches Some(sel) ==> (sel.anchor < u64::MAX && sel.cursor
            < u64::MAX ==> (copy_context_of(app) matches Some(c) && (c.scalar_width <==> {
            let n = if sel.anchor <= sel.cursor {
                sel.cursor - sel.anchor + 1
            } else {
                sel.anchor - sel.cursor + 1
            };
            n == 1 || n == 2 || n == 4 || n == 8
        }))),
{
}

} // verus!

//! The menu bar and the keys that do the same: what is enabled and what a click
//! or a press does.

use vstd::prelude::*;
use vstd::string::*;
use crate::active::{
    paste_wanted, redo_active_file, toggle_active_edit_mode, toggle_active_search, undo_active_file,
};
#[allow(unused_imports)]
use crate::active::{
    accepts_paste, active_mode_toggled, active_place, active_redone, active_search_toggled, active_undone,
    history_of,
};
use crate::closing::request_close_active_tab;
#[allow(unused_imports)]
use crate::closing::close_asked;
use crate::copy::CopyKind;
use crate::dispatch::{copy_effect, invoke_command, Effect};
#[allow(unused_imports)]
use crate::dispatch::{active_copied, command_done};
use crate::dock_ops::SplitRequest;
use crate::editor::EditMode;
use crate::frame::root_path_of;
use crate::hexview::selection_is_scalar;
#[allow(unused_imports)]
use crate::hexview::selects_scalar;
use crate::newfile::handle_new_file;
#[allow(unused_imports)]
use crate::newfile::scratch_made;
use crate::palette::PaletteCommand;
use crate::panels::toggle_global_search;
#[allow(unused_imports)]
use crate::panels::global_search_toggled;
use crate::save::{save_active_file, SavePlan};
#[allow(unused_imports)]
use crate::save::save_planned;
#[allow(unused_imports)]
use crate::search::bytes_view;
use crate::session::{active_file_id, find_file, HxyApp};
#[allow(unused_imports)]
use crate::session::{active_file, after_active_file, OpenFile};
use crate::tabs::FileId;
#[allow(unused_imports)]
use crate::watching::root_of;

verus! {

/// What the menu offers.
#[derive(Clone, Copy, Debug, PartialEq, Eq, Structural)]
pub struct MenuState {
    /// Whether what needs a file is enabled.
    pub file_open: bool,
    /// Whether the copy menu offers numbers.
    pub scalar_selection: bool,
    pub can_save: bool,
    pub can_undo: bool,
    pub can_redo: bool,
    pub can_paste: bool,
    /// Whether the active file accepts edits.
    pub editing: bool,
}

/// Whether a file can be saved where it came from: it was edited, or lies on
/// disk.
pub open spec fn saveable(file: OpenFile) -> bool {
    file.editor.spec_is_dirty() || root_of(file) is Some
}

/// What the menu offers for the active file.
pub open spec fn menu_of(app: HxyApp) -> MenuState {
    let h = history_of(app);
    let place = active_place(app);
    MenuState {
        file_open: active_file(app) is Some,
        scalar_selection: place matches Some(i) && selects_scalar(app.files@[i].editor.selection),
        can_save: place matches Some(i) && saveable(app.files@[i]),
        can_undo: h.can_undo,
        can_redo: h.can_redo,
        can_paste: h.can_paste,
        editing: h.can_paste,
    }
}

/// Tells what the menu offers.
pub fn sync_native_menu_state(app: &mut HxyApp) -> (r: MenuState)
    requires
        old(app).wf(),
    ensures
        final(app).wf(),
        *final(app) == after_active_file(*old(app)),
        r == menu_of(*old(app)),
{
    let active = active_file_id(app);
    let place = match active {
        Some(id) => find_file(&app.files, id),
        None => None,
    };
    match place {
        Some(i) => {
            let editing = app.files[i].editor.edit_mode == EditMode::Mutable;
            MenuState {
                file_open: true,
                scalar_selection: selection_is_scalar(app.files[i].editor.selection),
                can_save: app.files[i].editor.is_dirty() || root_path_of(&app.files[i]).is_some(),
                can_undo: app.files[i].editor.can_undo(),
                can_redo: app.files[i].editor.can_redo(),
                can_paste: editing,
                editing,
            }
        },
        None => MenuState {
            file_open: active.is_some(),
            scalar_selection: false,
            can_save: false,
            can_undo: false,
            can_redo: false,
            can_paste: false,
            editing: false,
        },
    }
}

/// Whether a key is that of the label of the item that locks and unlocks the active file.
pub open spec fn lock_labelled(
    state: MenuState,
    r: Seq<char>,
) -> bool {
    &&& r == if state.editing {
        "menu-edit-leave-edit-mode"@
    } else {
        "menu-edit-enter-edit-mode"@
    }
}

/// The key of the label of the item that locks and unlocks the active file.
pub fn edit_mode_label(state: MenuState) -> (r: &'static str)
    ensures
        lock_labelled(state, r@),
{
    if state.editing {
        "menu-edit-leave-edit-mode"
    } else {
        "menu-edit-enter-edit-mode"
    }
}

/// An item of the menu.
#[derive(Clone, Copy, Debug, PartialEq, Eq, Structural)]
pub enum MenuAction {
    NewFile,
    OpenFile,
    Save,
    SaveAs,
    CloseTab,
    ToggleEditMode,
    Undo,
    Redo,
    Paste,
    PasteAsHex,
    CopyBytes,
    CopyHex,
    CopyAs(CopyKind),
    ToggleConsole,
    ToggleInspector,
    TogglePlugins,
}

/// What is left to do after a click in the menu.
pub enum MenuEffect {
    /// What a command leaves to do.
    Done(Effect),
    /// Saves a file.
    Save { file_id: Option<FileId>, plan: SavePlan },
}

/// The command that an item runs.
pub open spec fn command_of(action: MenuAction) -> Option<PaletteCommand> {
    match action {
        MenuAction::NewFile => Some(PaletteCommand::NewFile),
        MenuAction::OpenFile => Some(PaletteCommand::OpenFile),
        MenuAction::ToggleEditMode => Some(PaletteCommand::ToggleEditMode),
        MenuAction::Undo => Some(PaletteCommand::Undo),
        MenuAction::Redo => Some(PaletteCommand::Redo),
        MenuAction::Paste => Some(PaletteCommand::Paste),
        MenuAction::PasteAsHex => Some(PaletteCommand::PasteAsHex),
        MenuAction::ToggleConsole => Some(PaletteCommand::ToggleConsole),
        MenuAction::ToggleInspector => Some(PaletteCommand::ToggleInspector),
        MenuAction::TogglePlugins => Some(PaletteCommand::TogglePlugins),
        _ => None,
    }
}

/// The format that an item copies in.
pub open spec fn kind_of(action: MenuAction) -> Option<CopyKind> {
    match action {
        MenuAction::CopyBytes => Some(CopyKind::BytesLossyUtf8),
        MenuAction::CopyHex => Some(CopyKind::BytesHexSpaced),
        MenuAction::CopyAs(kind) => Some(kind),
        _ => None,
    }
}

/// Whether the saving of the active file was planned.
pub open spec fn save_asked(
    before: HxyApp,
    force_dialog: bool,
    file_id: Option<FileId>,
    plan: SavePlan,
    after: HxyApp,
) -> bool {
    &&& file_id == active_file(before)
    &&& match file_id {
        Some(id) => save_planned(after_active_file(before), id, force_dialog, plan, after),
        None => plan is Nothing && after == after_active_file(before),
    }
}

/// What a click in the menu does.
pub open spec fn menu_done(before: HxyApp, action: MenuAction, r: MenuEffect, after: HxyApp)
    -> bool {
    match (command_of(action), kind_of(action)) {
        (Some(c), _) => r matches MenuEffect::Done(effect) && command_done(
            before,
            c,
            effect,
            after,
        ),
        (None, Some(kind)) => r matches MenuEffect::Done(effect) && active_copied(
            before,
            kind,
            effect,
            after,
        ),
        (None, None) => match r {
            MenuEffect::Save { file_id, plan } => (action is Save || action is SaveAs)
                && save_asked(before, action is SaveAs, file_id, plan, after),
            MenuEffect::Done(effect) => action is CloseTab && effect is Nothing && close_asked(
                before,
                after,
            ),
        },
    }
}

/// Does what was clicked in the menu.
pub fn drain_native_menu(app: &mut HxyApp, action: MenuAction) -> (r: MenuEffect)
    requires
        old(app).wf(),
        old(app).next_file_id < u64::MAX,
        old(app).next_workspace_id < u64::MAX,
        old(app).files@.len() + old(app).open_tabs@.len() + old(app).mounts@.len() < u64::MAX,
    ensures
        final(app).wf(),
        menu_done(*old(app), action, r, *final(app)),
{
    let command = match action {
        MenuAction::NewFile => PaletteCommand::NewFile,
        MenuAction::OpenFile => PaletteCommand::OpenFile,
        MenuAction::ToggleEditMode => PaletteCommand::ToggleEditMode,
        MenuAction::Undo => PaletteCommand::Undo,
        MenuAction::Redo => PaletteCommand::Redo,
        MenuAction::Paste => PaletteCommand::Paste,
        MenuAction::PasteAsHex => PaletteCommand::PasteAsHex,
        MenuAction::ToggleConsole => PaletteCommand::ToggleConsole,
        MenuAction::ToggleInspector => PaletteCommand::ToggleInspector,
        MenuAction::TogglePlugins => PaletteCommand::TogglePlugins,
        MenuAction::Save => {
            let (file_id, plan) = save_active_file(app, false);
            return MenuEffect::Save { file_id, plan };
        },
        MenuAction::SaveAs => {
            let (file_id, plan) = save_active_file(app, true);
            return MenuEffect::Save { file_id, plan };
        },
        MenuAction::CloseTab => {
            request_close_active_tab(app);
            return MenuEffect::Done(Effect::Nothing);
        },
        MenuAction::CopyBytes => {
            return MenuEffect::Done(copy_effect(app, CopyKind::BytesLossyUtf8));
        },
        MenuAction::CopyHex => {
            return MenuEffect::Done(copy_effect(app, CopyKind::BytesHexSpaced));
        },
        MenuAction::CopyAs(kind) => {
            return MenuEffect::Done(copy_effect(app, kind));
        },
    };
    MenuEffect::Done(invoke_command(app, command))
}

/// The keys of one moment that make, save, lock and rewind files.
#[derive(Clone, Copy, Debug, PartialEq, Eq, Structural)]
pub struct SaveKeys {
    pub new_file: bool,
    pub save_as: bool,
    pub save: bool,
    pub toggle_edit_mode: bool,
    pub redo: bool,
    pub undo: bool,
}

/// What those keys leave to do.
pub struct SaveKeysDone {
    /// The scratch file that was made, and the buffer that keeps it.
    pub made: Option<(FileId, u64)>,
    /// The file to save, and how.
    pub saved: Option<(Option<FileId>, SavePlan)>,
}

/// Whether keys did their part in order: a new file first, then saving under a
/// new name or else in place, then the lock, then a step forward or else back.
pub open spec fn keys_stepped(
    before: HxyApp,
    keys: SaveKeys,
    r: SaveKeysDone,
    made: HxyApp,
    saved: HxyApp,
    locked: HxyApp,
    after: HxyApp,
) -> bool {
    &&& match r.made {
        Some(m) => keys.new_file && scratch_made(before, m, made),
        None => !keys.new_file && made == before,
    }
    &&& match r.saved {
        Some((id, plan)) => (keys.save_as || keys.save) && save_asked(
            made,
            keys.save_as,
            id,
            plan,
            saved,
        ),
        None => !keys.save_as && !keys.save && saved == made,
    }
    &&& if keys.toggle_edit_mode {
        active_mode_toggled(saved, locked)
    } else {
        locked == saved
    }
    &&& if keys.redo {
        active_redone(locked, after)
    } else if keys.undo {
        active_undone(locked, after)
    } else {
        after == locked
    }
}

/// Answers the keys that make, save, lock and rewind files.
pub fn dispatch_save_shortcut(app: &mut HxyApp, keys: SaveKeys) -> (r: SaveKeysDone)
    requires
        old(app).wf(),
        old(app).next_file_id < u64::MAX,
        old(app).next_workspace_id < u64::MAX,
        old(app).files@.len() + old(app).open_tabs@.len() + old(app).mounts@.len() < u64::MAX,
    ensures
        final(app).wf(),
        exists|made: HxyApp, saved: HxyApp, locked: HxyApp| #[trigger]
            keys_stepped(*old(app), keys, r, made, saved, locked, *final(app)),
{
    let made = if keys.new_file {
        Some(handle_new_file(app))
    } else {
        None
    };
    let ghost first = *app;
    let saved = if keys.save_as {
        Some(save_active_file(app, true))
    } else if keys.save {
        Some(save_active_file(app, false))
    } else {
        None
    };
    let ghost second = *app;
    if keys.toggle_edit_mode {
        toggle_active_edit_mode(app);
    }
    let ghost third = *app;
    if keys.redo {
        redo_active_file(app);
    } else if keys.undo {
        undo_active_file(app);
    }
    let r = SaveKeysDone { made, saved };
    assert(keys_stepped(*old(app), keys, r, first, second, third, *app));
    r
}

/// Whether a format is what the keys for copying ask for.
pub open spec fn copy_key_means(
    copy_hex: bool,
    copy: bool,
    r: Option<CopyKind>,
) -> bool {
    &&& r == (if copy_hex {
        Some(CopyKind::BytesHexSpaced)
    } else if copy {
        Some(CopyKind::BytesLossyUtf8)
    } else {
        None
    })
}

/// The format that the keys for copying ask for. The one for digits wins.
pub fn copy_key(copy_hex: bool, copy: bool) -> (r: Option<CopyKind>)
    ensures
        copy_key_means(copy_hex, copy, r),
{
    if copy_hex {
        Some(CopyKind::BytesHexSpaced)
    } else if copy {
        Some(CopyKind::BytesLossyUtf8)
    } else {
        None
    }
}

/// Whether the copy keys were answered.
pub open spec fn copy_keys_answered(
    before: HxyApp,
    already_copying: bool,
    copy_hex: bool,
    copy: bool,
    r: Effect,
    after: HxyApp,
) -> bool {
    &&& if already_copying || !(copy_hex || copy) {
        r is Nothing && after == before
    } else {
        active_copied(
            before,
            if copy_hex {
                CopyKind::BytesHexSpaced
            } else {
                CopyKind::BytesLossyUtf8
            },
            r,
            after,
        )
    }
}

/// Answers the copy keys: nothing where something else was copied already.
pub fn dispatch_copy_shortcut(app: &mut HxyApp, already_copying: bool, copy_hex: bool, copy: bool)
    -> (r: Effect)
    requires
        old(app).wf(),
    ensures
        final(app).wf(),
        copy_keys_answered(*old(app), already_copying, copy_hex, copy, r, *final(app)),
{
    if already_copying {
        return Effect::Nothing;
    }
    match copy_key(copy_hex, copy) {
        Some(kind) => copy_effect(app, kind),
        None => Effect::Nothing,
    }
}

/// Whether the keys that search were answered.
pub open spec fn find_keys_answered(
    before: HxyApp,
    global: bool,
    local: bool,
    pattern: Option<Seq<u8>>,
    r: Option<SplitRequest>,
    after: HxyApp,
) -> bool {
    &&& if global {
        global_search_toggled(before, r, after)
    } else if local {
        r is None && active_search_toggled(before, pattern, after)
    } else {
        r is None && after == before
    }
}

/// Answers the keys that search: the one for all files wins over the one for
/// the active file. `pattern` is what the active file's search bar asks for.
pub fn dispatch_find_shortcut(app: &mut HxyApp, global: bool, local: bool, pattern: Option<Vec<u8>>)
    -> (r: Option<SplitRequest>)
    requires
        old(app).wf(),
    ensures
        final(app).wf(),
        find_keys_answered(*old(app), global, local, bytes_view(pattern), r, *final(app)),
{
    if global {
        return toggle_global_search(app);
    }
    if local {
        toggle_active_search(app, pattern);
    }
    None
}

/// How the paste keys ask for text: as digits where the key for those was
/// pressed, and not at all where neither was.
pub(crate) fn paste_key(paste: bool, paste_hex: bool) -> (r: Option<bool>)
    ensures
        r == (if paste_hex {
            Some(true)
        } else if paste {
            Some(false)
        } else {
            None
        }),
{
    if paste_hex {
        Some(true)
    } else if paste {
        Some(false)
    } else {
        None
    }
}

/// The text that came with a paste key, unless it is empty: the clipboard is
/// read then.
pub(crate) fn paste_event_text(event: Option<String>) -> (r: Option<String>)
    ensures
        r == (match event {
            Some(text) => if text@.len() > 0 {
                Some(text)
            } else {
                None
            },
            None => None,
        }),
{
    match event {
        Some(text) => if text.as_str().unicode_len() > 0 {
            Some(text)
        } else {
            None
        },
        None => None,
    }
}

/// What the paste keys ask for.
pub enum PasteStep {
    /// Nothing is pasted.
    Nothing,
    /// The clipboard is to be read.
    ReadClipboard { as_hex: bool },
    /// The text that came with the key is pasted.
    Text { as_hex: bool, text: String },
}

/// What the paste keys ask for, where `typing` tells that the keyboard belongs
/// to a text field.
pub open spec fn paste_asked(
    app: HxyApp,
    typing: bool,
    key: Option<bool>,
    event: Option<String>,
    step: PasteStep,
) -> bool {
    match key {
        Some(hex) => if typing || !accepts_paste(app) {
            step is Nothing
        } else {
            match event {
                Some(came) if came@.len() > 0 => step == (PasteStep::Text {
                    as_hex: hex,
                    text: came,
                }),
                _ => step == (PasteStep::ReadClipboard { as_hex: hex }),
            }
        },
        None => step is Nothing,
    }
}

/// Whether the keys that paste were answered.
pub open spec fn paste_keys_answered(
    before: HxyApp,
    typing: bool,
    paste: bool,
    paste_hex: bool,
    event: Option<String>,
    r: PasteStep,
    after: HxyApp,
) -> bool {
    &&& after == (if typing || !(paste || paste_hex) {
        before
    } else {
        after_active_file(before)
    })
    &&& paste_asked(
        before,
        typing,
        if paste_hex {
            Some(true)
        } else if paste {
            Some(false)
        } else {
            None
        },
        event,
        r,
    )
}

/// Answers the keys that paste. They do nothing while a text field has the
/// keyboard, nor for a file that cannot be edited. The text that came with the
/// key is taken before that of the clipboard.
pub fn dispatch_paste_shortcut(
    app: &mut HxyApp,
    typing: bool,
    paste: bool,
    paste_hex: bool,
    event: Option<String>,
) -> (r: PasteStep)
    requires
        old(app).wf(),
    ensures
        final(app).wf(),
        paste_keys_answered(*old(app), typing, paste, paste_hex, event, r, *final(app)),
{
    if typing {
        return PasteStep::Nothing;
    }
    let as_hex = match paste_key(paste, paste_hex) {
        Some(as_hex) => as_hex,
        None => return PasteStep::Nothing,
    };
    if !paste_wanted(app) {
        return PasteStep::Nothing;
    }
    match paste_event_text(event) {
        Some(text) => PasteStep::Text { as_hex, text },
        None => PasteStep::ReadClipboard { as_hex },
    }
}

/// The menu offers what can be done to the active file: saving where it was edited or
/// lies on disk, undo and redo where there is a step, paste where it accepts edits, and
/// numbers where as many bytes are selected as a machine integer has.
pub proof fn law_menu_offers_what_can_be_done(app: HxyApp, i: int)
    ensures
        active_file(app) is None ==> !menu_of(app).file_open && !menu_of(app).can_save && !menu_of(
            app,
        ).can_undo && !menu_of(app).can_redo && !menu_of(app).can_paste,
        active_place(app) == Some(i) ==> {
            let editor = app.files@[i].editor;
            let m = menu_of(app);
            &&& m.file_open
            &&& m.can_undo <==> editor.undo_stack@.len() > 0
            &&& m.can_redo <==> editor.redo_stack@.len() > 0
            &&& m.can_paste <==> editor.edit_mode is Mutable
            &&& m.editing <==> editor.edit_mode is Mutable
            &&& m.can_save <==> editor.spec_is_dirty() || root_of(app.files@[i]) is Some
            &&& editor.selection is None ==> !m.scalar_selection
            &&& editor.selection matches Some(sel) ==> (sel.anchor < u64::MAX && sel.cursor
                < u64::MAX ==> (m.scalar_selection <==> {
                let n = if sel.anchor <= sel.cursor {
                    sel.cursor - sel.anchor + 1
                } else {
                    sel.anchor - sel.cursor + 1
                };
                n == 1 || n == 2 || n == 4 || n == 8
            }))
        },
{
}

/// Each item of the menu does what it says: undo, redo and paste their own commands,
/// copies their own formats, saving in place or under a new name; closing asks about the
/// tab in front.
pub proof fn law_menu_item_does_what_it_says(
    before: HxyApp,
    action: MenuAction,
    r: MenuEffect,
    after: HxyApp,
)
    requires
        menu_done(before, action, r, after),
    ensures
        action is Undo ==> crate::active::active_undone(before, after),
        action is Redo ==> crate::active::active_redone(before, after),
        action is ToggleEditMode ==> crate::active::active_mode_toggled(before, after),
        action is Save ==> (r matches MenuEffect::Save { file_id, plan } && file_id == active_file(
            before,
        ) && (file_id matches Some(id) ==> save_planned(
            after_active_file(before),
            id,
            false,
            plan,
            after,
        ))),
        action is SaveAs ==> (r matches MenuEffect::Save { file_id, plan } && file_id
            == active_file(before) && (file_id matches Some(id) ==> save_planned(
            after_active_file(before),
            id,
            true,
            plan,
            after,
        ))),
        action is CloseTab ==> close_asked(before, after),
        action is CopyHex ==> (r matches MenuEffect::Done(e) && active_copied(
            before,
            CopyKind::BytesHexSpaced,
            e,
            after,
        )),
        action is CopyBytes ==> (r matches MenuEffect::Done(e) && active_copied(
            before,
            CopyKind::BytesLossyUtf8,
            e,
            after,
        )),
        action matches MenuAction::CopyAs(kind) ==> (r matches MenuEffect::Done(e) && active_copied(
            before,
            kind,
            e,
            after,
        )),
        action is Paste ==> (r matches MenuEffect::Done(e) && (e is ReadClipboard
            <==> accepts_paste(before))),
        action is ToggleConsole ==> command_of(action) == Some(PaletteCommand::ToggleConsole),
        action is ToggleInspector ==> command_of(action) == Some(PaletteCommand::ToggleInspector),
        action is TogglePlugins ==> command_of(action) == Some(PaletteCommand::TogglePlugins),
        action is NewFile ==> command_of(action) == Some(PaletteCommand::NewFile),
        action is OpenFile ==> command_of(action) == Some(PaletteCommand::OpenFile),
{
}

/// Saving under a new name wins over saving in place, and redo over undo; without a key
/// nothing of it happens.
pub proof fn law_keys_do_their_part(
    before: HxyApp,
    keys: SaveKeys,
    r: SaveKeysDone,
    made: HxyApp,
    saved: HxyApp,
    locked: HxyApp,
    after: HxyApp,
)
    requires
        keys_stepped(before, keys, r, made, saved, locked, after),
    ensures
        r.made is Some <==> keys.new_file,
        r.saved is Some <==> keys.save || keys.save_as,
        r.saved matches Some((id, plan)) ==> (id matches Some(f) ==> save_planned(
            after_active_file(made),
            f,
            keys.save_as,
            plan,
            saved,
        )),
        keys.redo ==> crate::active::active_redone(locked, after),
        !keys.redo && keys.undo ==> crate::active::active_undone(locked, after),
        !keys.new_file && !keys.save && !keys.save_as && !keys.toggle_edit_mode && !keys.redo
            && !keys.undo ==> after == before,
        keys.toggle_edit_mode ==> crate::active::active_mode_toggled(saved, locked),
{
}

/// The key for digits wins over the one for text, the one for all files over the one for
/// the active file. Nothing is pasted while a text field has the keyboard or into a file
/// that accepts no edits; the text that came with the key is pasted where it is not empty,
/// and else the clipboard is read.
pub proof fn law_keys_copy_and_paste(
    before: HxyApp,
    already_copying: bool,
    copy_hex: bool,
    copy: bool,
    copied: Effect,
    with_copy: HxyApp,
    typing: bool,
    paste: bool,
    paste_hex: bool,
    event: Option<String>,
    pasted: PasteStep,
    with_paste: HxyApp,
)
    requires
        copy_keys_answered(before, already_copying, copy_hex, copy, copied, with_copy),
        paste_keys_answered(before, typing, paste, paste_hex, event, pasted, with_paste),
    ensures
        already_copying || !(copy_hex || copy) ==> copied is Nothing && with_copy == before,
        !already_copying && copy_hex ==> active_copied(
            before,
            CopyKind::BytesHexSpaced,
            copied,
            with_copy,
        ),
        !already_copying && !copy_hex && copy ==> active_copied(
            before,
            CopyKind::BytesLossyUtf8,
            copied,
            with_copy,
        ),
        typing || !(paste || paste_hex) || !accepts_paste(before) ==> pasted is Nothing,
        !typing && (paste || paste_hex) && accepts_paste(before) ==> match event {
            Some(text) => if text@.len() > 0 {
                pasted == (PasteStep::Text { as_hex: paste_hex, text })
            } else {
                pasted == (PasteStep::ReadClipboard { as_hex: paste_hex })
            },
            None => pasted == (PasteStep::ReadClipboard { as_hex: paste_hex }),
        },
        with_paste.files == before.files && with_copy.files == before.files,
{
}

/// The key for the search over all files wins over the one for the active file; the item
/// of the lock says what it makes of the file.
pub proof fn law_keys_search(
    before: HxyApp,
    global: bool,
    local: bool,
    pattern: Option<Seq<u8>>,
    r: Option<SplitRequest>,
    after: HxyApp,
    state: MenuState,
    label: Seq<char>,
)
    requires
        find_keys_answered(before, global, local, pattern, r, after),
        lock_labelled(state, label),
    ensures
        global ==> global_search_toggled(before, r, after),
        !global && local ==> active_search_toggled(before, pattern, after),
        !global && !local ==> after == before && r is None,
        state.editing ==> label == "menu-edit-leave-edit-mode"@,
        !state.editing ==> label == "menu-edit-enter-edit-mode"@,
{
}

} // verus!

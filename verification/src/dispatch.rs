//! What commands, palette picks and keys do to the editor, and what they leave
//! to its surroundings.

use vstd::prelude::*;
use vstd::string::*;
use crate::active::{
    choose_columns,
    copy_active_file,
    copy_active_offset,
    find_active,
    go_to_offset,
    paste_wanted,
    redo_active_file,
    set_selection,
    toggle_active_edit_mode,
    undo_active_file,
};
#[allow(unused_imports)]
use crate::active::{
    accepts_paste, active_mode_toggled, active_offset_text, active_place, active_redone,
    active_reselected, active_undone, columns_chosen, copy_asked, file_replaced, range_selection,
};
#[allow(unused_imports)]
use crate::closing::redocked;
use crate::commands::{CommandEffect, DockDir};
#[allow(unused_imports)]
use crate::commands::EffectView;
use crate::copy::{CopyKind, CopyRequest, OffsetCopy};
use crate::dock::NodePos;
#[allow(unused_imports)]
use crate::dock::DockView;
use crate::dock_ops::{focus_tab, SplitRequest};
#[allow(unused_imports)]
use crate::dock_ops::shown;
use crate::editor::{copy_bytes, Selection};
#[allow(unused_imports)]
use crate::editor::clamped;
use crate::mounting::{mount_active_file, MountPlan};
#[allow(unused_imports)]
use crate::mounting::mount_planned;
use crate::moves::{
    cycle_outer_focused_leaf,
    cycle_workspace_focused_leaf,
    dock_merge_focused,
    dock_merge_to,
    dock_move_focused_tab,
    dock_move_tab_to,
    dock_split_focused,
    resolve_target_leaf,
    toggle_tab_focus,
};
#[allow(unused_imports)]
use crate::moves::{focus_toggled, leaf_cycled, merged, route, tab_moved, target_leaf};
use crate::newfile::handle_new_file;
#[allow(unused_imports)]
use crate::newfile::scratch_made;
use crate::palette::{
    dismiss_palette, toggle_palette, Action, CompareSide, DismissReason, Mode, PaletteCommand,
    PaletteState,
};
#[allow(unused_imports)]
use crate::palette::opened_at;
use crate::panels::{toggle_active_tree, toggle_tools};
#[allow(unused_imports)]
use crate::panels::{console_toggled, page_toggled, tool_toggled, tools_toggled, tree_toggled};
#[allow(unused_imports)]
use crate::panes::welcome;
use crate::session::{
    active_file_id,
    find_workspace,
    focus_file_tab,
    HxyApp,
    OpenFile,
    PaneOp,
    PendingPanePick,
    Workspace,
};
#[allow(unused_imports)]
use crate::session::{active_file, after_active_file, dock_changed, file_focused, workspace_at};
#[allow(unused_imports)]
use crate::settings::AppSettings;
use crate::source::TabSource;
use crate::tabs::{DockTab, FileId, Tab, TabFocus, WorkspaceId};
use crate::tool_pane::ToolPanel;

verus! {

/// What the surroundings of the editor are asked to do.
pub enum Effect {
    Nothing,
    /// Asks the user for a file to open.
    OpenFileDialog,
    /// A scratch file was opened; its empty buffer is to be kept.
    KeepScratch { file_id: FileId, scratch: u64 },
    /// Browses the active file.
    Browse(MountPlan),
    /// Makes a pane in the dock.
    Split(SplitRequest),
    /// Makes a pane inside a workspace.
    SplitInside { workspace_id: WorkspaceId, split: SplitRequest },
    /// Brings the hidden plugin tabs back, or repaints without them.
    Tools(ToolPanel),
    /// Reads the clipboard for the active file.
    ReadClipboard { as_hex: bool },
    CopyText(String),
    Copy(CopyRequest),
    /// Asks the user for a template to run.
    RunTemplateDialog,
    RunTemplate { file_id: FileId, path: String },
    /// Asks the user for a template to install.
    InstallTemplateDialog,
    UninstallTemplate(String),
    UninstallPlugin(String),
    /// Reads a file that was open before.
    OpenPath(String),
    /// Scrolls the active file where a place is not to be seen.
    Reveal(u64),
    InvokePlugin { plugin_name: String, command_id: String },
    RespondToPlugin { plugin_name: String, command_id: String, answer: String },
    /// Compares two files.
    Compare { first: TabSource, second: TabSource },
    /// Moves the caret to the next field of the template, or to the one before.
    JumpField { forward: bool },
    /// Lets the user point out a pane of tools to close.
    CloseToolPane,
    /// Looks for strings in a file, or in a part of it.
    FindStrings { file_id: FileId, part: Option<Selection> },
    /// Computes the checksums of a file, or of a part of it.
    Checksums { file_id: FileId, part: Option<Selection> },
    /// Computes the entropy of a file.
    Entropy { file_id: FileId },
    /// Copies the address of a place, counted from that of the first byte.
    CopyAddress { offset: u64, base: u64 },
    /// Offers the active file's bytes for download.
    Download { name: String, bytes: Vec<u8> },
}

/// The editor after the target pane of a command was looked for: the active
/// file is asked for only where no pane is focused.
pub open spec fn after_target(app: HxyApp) -> HxyApp {
    if app.dock@.focused_leaf() is Some {
        app
    } else {
        after_active_file(app)
    }
}

fn target_file(app: &mut HxyApp) -> (r: Option<FileId>)
    requires
        old(app).wf(),
    ensures
        final(app).wf(),
        *final(app) == after_target(*old(app)),
        target_leaf(old(app).dock@, r) == target_leaf(old(app).dock@, active_file(*old(app))),
{
    if app.dock.focused_leaf().is_some() {
        None
    } else {
        active_file_id(app)
    }
}

/// Whether a new pane is asked for beside the target pane, with the placeholder
/// page in it; nothing without a target pane.
pub open spec fn pane_split(before: HxyApp, dir: DockDir, r: Effect, after: HxyApp) -> bool {
    &&& after == after_target(before)
    &&& match target_leaf(before.dock@, active_file(before)) {
        Some(at) => r matches Effect::Split(split) && at == (
            split.at.surface as nat,
            split.at.node as nat,
        ) && split.dir == dir && split.keep_percent == 50 && split.tabs@ == seq![welcome()],
        None => r is Nothing,
    }
}

fn split_pane(app: &mut HxyApp, dir: DockDir) -> (r: Effect)
    requires
        old(app).wf(),
    ensures
        final(app).wf(),
        pane_split(*old(app), dir, r, *final(app)),
{
    let active = target_file(app);
    match dock_split_focused(&app.dock, active, dir) {
        Some(split) => Effect::Split(split),
        None => Effect::Nothing,
    }
}

/// Whether one editor is another in which the target pane was merged into its
/// neighbour.
pub open spec fn pane_merged(before: HxyApp, dir: DockDir, after: HxyApp) -> bool {
    redocked(
        after_target(before),
        match route(before.dock@, active_file(before), dir) {
            Some(pair) => merged(before.dock@, pair.0, pair.1),
            None => before.dock@,
        },
        after,
    )
}

fn merge_pane(app: &mut HxyApp, dir: DockDir)
    requires
        old(app).wf(),
    ensures
        final(app).wf(),
        pane_merged(*old(app), dir, *final(app)),
{
    let active = target_file(app);
    dock_merge_focused(&mut app.dock, active, dir);
}

/// Whether one editor is another in which the open tab of the target pane was
/// moved to its neighbour.
pub open spec fn pane_tab_moved(before: HxyApp, dir: DockDir, after: HxyApp) -> bool {
    redocked(
        after_target(before),
        match route(before.dock@, active_file(before), dir) {
            Some(pair) => tab_moved(before.dock@, pair.0, pair.1),
            None => before.dock@,
        },
        after,
    )
}

fn move_pane_tab(app: &mut HxyApp, dir: DockDir)
    requires
        old(app).wf(),
    ensures
        final(app).wf(),
        pane_tab_moved(*old(app), dir, *final(app)),
{
    let active = target_file(app);
    dock_move_focused_tab(&mut app.dock, active, dir);
}

/// Whether an effect of a command was applied, and what is left to do.
pub open spec fn effect_applied(before: HxyApp, effect: EffectView, r: Effect, after: HxyApp)
    -> bool {
    match effect {
        EffectView::OpenFileDialog => r is OpenFileDialog && after == before,
        EffectView::MountActiveFile => r matches Effect::Browse(plan) && mount_planned(
            before,
            plan,
            after,
        ),
        EffectView::RunTemplateDialog => r is RunTemplateDialog && after == before,
        EffectView::RunTemplateDirect(p) => after == after_active_file(before) && template_asked(
            before,
            p,
            r,
        ),
        EffectView::OpenRecent(p) => after == before && (r matches Effect::OpenPath(q) && q@ == p),
        EffectView::UndoActiveFile => r is Nothing && active_undone(before, after),
        EffectView::RedoActiveFile => r is Nothing && active_redone(before, after),
        EffectView::DockSplit(dir) => pane_split(before, dir, r, after),
        EffectView::DockMerge(dir) => r is Nothing && pane_merged(before, dir, after),
        EffectView::DockMoveTab(dir) => r is Nothing && pane_tab_moved(before, dir, after),
    }
}

/// Whether a template is to run on the active file; nothing without one.
pub open spec fn template_asked(app: HxyApp, path: Seq<char>, r: Effect) -> bool {
    match active_file(app) {
        Some(id) => r matches Effect::RunTemplate { file_id, path: p } && file_id == id && p@
            == path,
        None => r is Nothing,
    }
}

fn run_template(app: &mut HxyApp, path: String) -> (r: Effect)
    requires
        old(app).wf(),
    ensures
        final(app).wf(),
        *final(app) == after_active_file(*old(app)),
        template_asked(*old(app), path@, r),
{
    match active_file_id(app) {
        Some(file_id) => Effect::RunTemplate { file_id, path },
        None => Effect::Nothing,
    }
}

/// Applies what a command asks for.
pub fn apply_command_effect(app: &mut HxyApp, effect: CommandEffect) -> (r: Effect)
    requires
        old(app).wf(),
    ensures
        final(app).wf(),
        effect_applied(*old(app), effect@, r, *final(app)),
{
    match effect {
        CommandEffect::OpenFileDialog => Effect::OpenFileDialog,
        CommandEffect::MountActiveFile => Effect::Browse(mount_active_file(app)),
        CommandEffect::RunTemplateDialog => Effect::RunTemplateDialog,
        CommandEffect::RunTemplateDirect(path) => run_template(app, path),
        CommandEffect::OpenRecent(path) => Effect::OpenPath(path),
        CommandEffect::UndoActiveFile => {
            undo_active_file(app);
            Effect::Nothing
        },
        CommandEffect::RedoActiveFile => {
            redo_active_file(app);
            Effect::Nothing
        },
        CommandEffect::DockSplit(dir) => split_pane(app, dir),
        CommandEffect::DockMerge(dir) => {
            merge_pane(app, dir);
            Effect::Nothing
        },
        CommandEffect::DockMoveTab(dir) => {
            move_pane_tab(app, dir);
            Effect::Nothing
        },
    }
}

/// The editor with the palette closed.
pub open spec fn shut(app: HxyApp) -> HxyApp {
    HxyApp { palette: PaletteState { open: false, ..app.palette }, ..app }
}

/// Whether one editor is another in which a pane is to be pointed out for an
/// operation on the target pane. Without a target pane nothing happens.
pub open spec fn pick_started(before: HxyApp, op: PaneOp, after: HxyApp) -> bool {
    let mid = after_target(before);
    match target_leaf(before.dock@, active_file(before)) {
        Some(at) => {
            &&& after == (HxyApp { pending_pane_pick: after.pending_pane_pick, ..shut(mid) })
            &&& after.pending_pane_pick matches Some(pick) && pick.op == op && (
            pick.source matches Some(pos) && at == (pos.surface as nat, pos.node as nat))
        },
        None => after == mid,
    }
}

/// Lets the user point out a pane for an operation on the target pane.
pub fn start_pane_pick(app: &mut HxyApp, op: PaneOp)
    requires
        old(app).wf(),
    ensures
        final(app).wf(),
        pick_started(*old(app), op, *final(app)),
{
    let active = target_file(app);
    if let Some(source) = resolve_target_leaf(&app.dock, active) {
        app.palette.close();
        app.pending_pane_pick = Some(PendingPanePick { op, source: Some(source) });
    }
}

/// The editor in which a pane is to be pointed out to be focused.
pub open spec fn focus_pick_started(app: HxyApp) -> HxyApp {
    HxyApp {
        pending_pane_pick: Some(PendingPanePick { op: PaneOp::Focus, source: None }),
        ..shut(app)
    }
}

/// Lets the user point out a pane to focus.
pub fn start_pane_focus(app: &mut HxyApp)
    requires
        old(app).wf(),
    ensures
        final(app).wf(),
        *final(app) == focus_pick_started(*old(app)),
{
    app.palette.close();
    app.pending_pane_pick = Some(PendingPanePick { op: PaneOp::Focus, source: None });
}

/// Whether the key that lets a pane be pointed out was answered.
pub open spec fn focus_key_answered(
    before: HxyApp,
    after: HxyApp,
) -> bool {
    &&& after == if before.pending_pane_pick is Some {
        before
    } else {
        focus_pick_started(before)
    }
}

/// Lets the user point out a pane to focus, unless one is being pointed out.
pub fn focus_pane_key(app: &mut HxyApp)
    requires
        old(app).wf(),
    ensures
        final(app).wf(),
        focus_key_answered(*old(app), *final(app)),
{
    if app.pending_pane_pick.is_none() {
        start_pane_focus(app);
    }
}

/// How far the pointing out of a pane has come.
#[derive(Clone, Copy, Debug, PartialEq, Eq, Structural)]
pub enum PickStep {
    Continue,
    Cancel,
    Picked(NodePos),
}

/// The dock after an operation on a pane that was pointed out.
pub open spec fn pane_operated(v: DockView, pick: PendingPanePick, target: NodePos) -> DockView {
    match pick.op {
        PaneOp::MoveTab => match pick.source {
            Some(source) => tab_moved(v, source, target),
            None => v,
        },
        PaneOp::Merge => match pick.source {
            Some(source) => merged(v, source, target),
            None => v,
        },
        PaneOp::Focus => v.focused_on(target),
    }
}

/// Whether one editor is another after a step of pointing out a pane. The
/// operation is done on the pane that was pointed out; focusing one also leaves
/// the tabs of a workspace.
pub open spec fn pick_stepped(before: HxyApp, step: PickStep, after: HxyApp) -> bool {
    match before.pending_pane_pick {
        None => after == before,
        Some(pick) => match step {
            PickStep::Continue => after == before,
            PickStep::Cancel => after == (HxyApp { pending_pane_pick: None, ..before }),
            PickStep::Picked(target) => {
                &&& after == (HxyApp {
                    pending_pane_pick: None,
                    dock: after.dock,
                    tab_focus: if pick.op is Focus {
                        TabFocus::Outer
                    } else {
                        before.tab_focus
                    },
                    ..before
                })
                &&& after.dock@ == pane_operated(before.dock@, pick, target)
            },
        },
    }
}

/// Takes one step of pointing out a pane.
pub fn handle_pane_pick(app: &mut HxyApp, step: PickStep)
    requires
        old(app).wf(),
        step matches PickStep::Picked(target) ==> old(app).dock@.leaf(target) is Some,
    ensures
        final(app).wf(),
        pick_stepped(*old(app), step, *final(app)),
{
    let pick = match app.pending_pane_pick {
        Some(pick) => pick,
        None => return,
    };
    match step {
        PickStep::Continue => {},
        PickStep::Cancel => {
            app.pending_pane_pick = None;
        },
        PickStep::Picked(target) => {
            app.pending_pane_pick = None;
            match pick.op {
                PaneOp::MoveTab => {
                    if let Some(source) = pick.source {
                        dock_move_tab_to(&mut app.dock, source, target);
                    }
                },
                PaneOp::Merge => {
                    if let Some(source) = pick.source {
                        dock_merge_to(&mut app.dock, source, target);
                    }
                },
                PaneOp::Focus => {
                    app.dock.set_focus(target);
                    app.tab_focus = TabFocus::Outer;
                },
            }
        },
    }
}

/// Where the focused leaf is as a place.
pub open spec fn leaf_pos(at: (nat, nat)) -> NodePos {
    NodePos { surface: at.0 as usize, node: at.1 as usize }
}

/// The outer dock after its focused leaf was cycled.
pub open spec fn outer_cycled(v: DockView, forward: bool) -> DockView {
    match v.focused_leaf() {
        Some(at) => leaf_cycled(v, leaf_pos(at), forward),
        None => v,
    }
}

/// A workspace's dock after its focused leaf was cycled, or its root where no
/// leaf is focused.
pub open spec fn inner_cycled(v: DockView, forward: bool) -> DockView {
    match v.focused_leaf() {
        Some(at) => leaf_cycled(v, leaf_pos(at), forward),
        None => leaf_cycled(v, crate::dock_ops::main_root(), forward),
    }
}

fn cycle_outer(app: &mut HxyApp, forward: bool)
    requires
        old(app).wf(),
    ensures
        final(app).wf(),
        redocked(*old(app), outer_cycled(old(app).dock@, forward), *final(app)),
{
    if let Some(pos) = app.dock.focused_leaf() {
        assert(leaf_pos((pos.surface as nat, pos.node as nat)) == pos);
        assert(outer_cycled(app.dock@, forward) == leaf_cycled(app.dock@, pos, forward));
    }
    cycle_outer_focused_leaf(&mut app.dock, forward);
}

fn cycle_inside(list: &mut Vec<Workspace>, i: usize, forward: bool)
    requires
        i < old(list)@.len(),
        old(list)@[i as int].dock.wf(),
    ensures
        dock_changed(
            old(list)@,
            i as int,
            inner_cycled(old(list)@[i as int].dock@, forward),
            final(list)@,
        ),
        final(list)@[i as int].dock.wf(),
{
    if let Some(pos) = list[i].dock.focused_leaf() {
        assert(leaf_pos((pos.surface as nat, pos.node as nat)) == pos);
        assert(inner_cycled(list@[i as int].dock@, forward) == leaf_cycled(
            list@[i as int].dock@,
            pos,
            forward,
        ));
    }
    cycle_workspace_focused_leaf(&mut list[i].dock, forward);
}

/// Whether one editor is another after the key that opens the next tab or the
/// one before: of the dock, or of the workspace whose tabs have the keys. Where
/// that workspace is gone the keys go back to the dock.
pub open spec fn tabs_cycled(before: HxyApp, forward: bool, after: HxyApp) -> bool {
    match before.tab_focus {
        TabFocus::Workspace(id) => match workspace_at(before.workspaces@, id) {
            Some(i) => after == (HxyApp { workspaces: after.workspaces, ..before }) && dock_changed(
                before.workspaces@,
                i,
                inner_cycled(before.workspaces@[i].dock@, forward),
                after.workspaces@,
            ),
            None => redocked(
                HxyApp { tab_focus: TabFocus::Outer, ..before },
                outer_cycled(before.dock@, forward),
                after,
            ),
        },
        TabFocus::Outer => redocked(before, outer_cycled(before.dock@, forward), after),
    }
}

/// Opens the next tab, or the one before.
pub fn dispatch_tab_cycle(app: &mut HxyApp, forward: bool)
    requires
        old(app).wf(),
    ensures
        final(app).wf(),
        tabs_cycled(*old(app), forward, *final(app)),
{
    match app.tab_focus {
        TabFocus::Outer => cycle_outer(app, forward),
        TabFocus::Workspace(id) => match find_workspace(&app.workspaces, id) {
            Some(i) => cycle_inside(&mut app.workspaces, i, forward),
            None => {
                app.tab_focus = TabFocus::Outer;
                cycle_outer(app, forward);
            },
        },
    }
}

/// Whether the keys went between the tabs of the dock and those of the open workspace.
pub open spec fn tab_focus_switched(
    before: HxyApp,
    after: HxyApp,
) -> bool {
    &&& after == (HxyApp {
        tab_focus: focus_toggled(before.tab_focus, before.dock@),
        ..before
    })
}

/// Moves the keys between the tabs of the dock and those of the open workspace.
pub fn dispatch_tab_focus_toggle(app: &mut HxyApp)
    requires
        old(app).wf(),
    ensures
        final(app).wf(),
        tab_focus_switched(*old(app), *final(app)),
{
    app.tab_focus = toggle_tab_focus(app.tab_focus, &app.dock);
}

/// Brings a tab of the dock to the front.
pub fn focus_dock_tab(app: &mut HxyApp, tab: Tab)
    requires
        old(app).wf(),
    ensures
        final(app).wf(),
        redocked(*old(app), shown(old(app).dock@, DockTab::Outer(tab)), *final(app)),
{
    focus_tab(&mut app.dock, DockTab::Outer(tab));
}

/// Whether a pane of the dock is asked for, or nothing.
pub open spec fn split_effect(split: Option<SplitRequest>, r: Effect) -> bool {
    match split {
        Some(s) => r == Effect::Split(s),
        None => r is Nothing,
    }
}

fn split_or_nothing(split: Option<SplitRequest>) -> (r: Effect)
    ensures
        split_effect(split, r),
{
    match split {
        Some(s) => Effect::Split(s),
        None => Effect::Nothing,
    }
}

/// Whether a tool's tab was toggled, and the pane that it needs is asked for.
pub open spec fn toggled_tool(before: HxyApp, tab: Tab, r: Effect, after: HxyApp) -> bool {
    exists|split: Option<SplitRequest>| #[trigger]
        tool_toggled(before, tab, split, after) && split_effect(split, r)
}

fn toggle_tool_effect(app: &mut HxyApp, tab: Tab) -> (r: Effect)
    requires
        old(app).wf(),
    ensures
        final(app).wf(),
        toggled_tool(*old(app), tab, r, *final(app)),
{
    let split = app.toggle_tool(tab);
    let ghost asked = split;
    let r = split_or_nothing(split);
    assert(tool_toggled(*old(app), tab, asked, *app) && split_effect(asked, r));
    r
}

/// Whether the console was toggled, and the pane that it needs is asked for.
pub open spec fn toggled_console(before: HxyApp, r: Effect, after: HxyApp) -> bool {
    exists|split: Option<SplitRequest>| #[trigger]
        console_toggled(before, split, after) && split_effect(split, r)
}

fn toggle_console_effect(app: &mut HxyApp) -> (r: Effect)
    requires
        old(app).wf(),
    ensures
        final(app).wf(),
        toggled_console(*old(app), r, *final(app)),
{
    let split = app.toggle_console();
    let ghost asked = split;
    let r = split_or_nothing(split);
    assert(console_toggled(*old(app), asked, *app) && split_effect(asked, r));
    r
}

/// Whether the tree of the active workspace was toggled, and the pane that it
/// needs is asked for.
pub open spec fn toggled_tree(before: HxyApp, r: Effect, after: HxyApp) -> bool {
    match r {
        Effect::SplitInside { workspace_id, split } => tree_toggled(
            before,
            Some((workspace_id, split)),
            after,
        ),
        Effect::Nothing => tree_toggled(before, None, after),
        _ => false,
    }
}

fn toggle_tree_effect(app: &mut HxyApp) -> (r: Effect)
    requires
        old(app).wf(),
    ensures
        final(app).wf(),
        toggled_tree(*old(app), r, *final(app)),
{
    match toggle_active_tree(app) {
        Some(asked) => Effect::SplitInside { workspace_id: asked.0, split: asked.1 },
        None => Effect::Nothing,
    }
}

/// Whether a text is to be copied, or nothing.
pub open spec fn text_copied(text: Option<Seq<char>>, r: Effect) -> bool {
    match text {
        Some(t) => r matches Effect::CopyText(s) && s@ == t,
        None => r is Nothing,
    }
}

fn copy_number(app: &mut HxyApp, kind: OffsetCopy) -> (r: Effect)
    requires
        old(app).wf(),
    ensures
        final(app).wf(),
        *final(app) == after_active_file(*old(app)),
        text_copied(active_offset_text(*old(app), kind), r),
{
    match copy_active_offset(app, kind) {
        Some(text) => Effect::CopyText(text),
        None => Effect::Nothing,
    }
}

/// Whether the clipboard is to be read for the active file; nothing where it
/// does not accept edits.
pub open spec fn paste_asked(before: HxyApp, as_hex: bool, r: Effect, after: HxyApp) -> bool {
    &&& after == after_active_file(before)
    &&& if accepts_paste(before) {
        r == (Effect::ReadClipboard { as_hex })
    } else {
        r is Nothing
    }
}

fn ask_paste(app: &mut HxyApp, as_hex: bool) -> (r: Effect)
    requires
        old(app).wf(),
    ensures
        final(app).wf(),
        paste_asked(*old(app), as_hex, r, *final(app)),
{
    if paste_wanted(app) {
        Effect::ReadClipboard { as_hex }
    } else {
        Effect::Nothing
    }
}

/// Whether a tool for the active file is asked for, with what is to be computed
/// for it; nothing without an active file.
pub open spec fn tool_asked(before: HxyApp, command: PaletteCommand, r: Effect, after: HxyApp)
    -> bool {
    &&& after == after_active_file(before)
    &&& match active_place(before) {
        Some(i) => {
            let id = before.files@[i].id;
            let selection = before.files@[i].editor.selection;
            match command {
                PaletteCommand::FindStringsSelection => r == (Effect::FindStrings {
                    file_id: id,
                    part: selection,
                }),
                PaletteCommand::FindStringsWholeFile | PaletteCommand::FindStringsWithOptions => r
                    == (Effect::FindStrings { file_id: id, part: None }),
                PaletteCommand::CalculateChecksumsSelection => r == (Effect::Checksums {
                    file_id: id,
                    part: selection,
                }),
                PaletteCommand::CalculateChecksumsWholeFile => r == (Effect::Checksums {
                    file_id: id,
                    part: None,
                }),
                PaletteCommand::ComputeEntropy | PaletteCommand::ShowEntropy
                | PaletteCommand::ToggleEntropy => r == (Effect::Entropy { file_id: id }),
                PaletteCommand::CopyCaretAddress => match (
                    selection,
                    before.files@[i].virtual_base,
                ) {
                    (Some(sel), Some(base)) => r == (Effect::CopyAddress {
                        offset: sel.cursor,
                        base,
                    }),
                    _ => r is Nothing,
                },
                PaletteCommand::SaveAsDownload => r matches Effect::Download { name, bytes }
                    && name@ == before.files@[i].display_name@ && bytes@
                    == before.files@[i].editor.bytes@,
                _ => r is Nothing,
            }
        },
        None => r is Nothing,
    }
}

pub(crate) fn ask_tool(app: &mut HxyApp, command: PaletteCommand) -> (r: Effect)
    requires
        old(app).wf(),
    ensures
        final(app).wf(),
        tool_asked(*old(app), command, r, *final(app)),
{
    let i = match find_active(app) {
        Some(i) => i,
        None => return Effect::Nothing,
    };
    let file_id = app.files[i].id;
    let selection = app.files[i].editor.selection;
    match command {
        PaletteCommand::FindStringsSelection => Effect::FindStrings { file_id, part: selection },
        PaletteCommand::FindStringsWholeFile | PaletteCommand::FindStringsWithOptions =>
            Effect::FindStrings { file_id, part: None },
        PaletteCommand::CalculateChecksumsSelection => Effect::Checksums {
            file_id,
            part: selection,
        },
        PaletteCommand::CalculateChecksumsWholeFile => Effect::Checksums { file_id, part: None },
        PaletteCommand::ComputeEntropy | PaletteCommand::ShowEntropy
        | PaletteCommand::ToggleEntropy => Effect::Entropy { file_id },
        PaletteCommand::CopyCaretAddress => match (selection, app.files[i].virtual_base) {
            (Some(sel), Some(base)) => Effect::CopyAddress { offset: sel.cursor, base },
            _ => Effect::Nothing,
        },
        PaletteCommand::SaveAsDownload => Effect::Download {
            name: app.files[i].display_name.clone(),
            bytes: copy_bytes(&app.files[i].editor.bytes),
        },
        _ => Effect::Nothing,
    }
}

/// Whether one editor is another in which the palette shows a mode.
pub open spec fn mode_shown(before: HxyApp, mode: Mode, after: HxyApp) -> bool {
    after == (HxyApp { palette: after.palette, ..before }) && opened_at(
        before.palette,
        mode,
        after.palette,
    )
}

/// The direction that a command for panes tells.
pub open spec fn pane_effect(command: PaletteCommand) -> Option<EffectView> {
    match command {
        PaletteCommand::SplitRight => Some(EffectView::DockSplit(DockDir::Right)),
        PaletteCommand::SplitLeft => Some(EffectView::DockSplit(DockDir::Left)),
        PaletteCommand::SplitUp => Some(EffectView::DockSplit(DockDir::Up)),
        PaletteCommand::SplitDown => Some(EffectView::DockSplit(DockDir::Down)),
        PaletteCommand::MergeRight => Some(EffectView::DockMerge(DockDir::Right)),
        PaletteCommand::MergeLeft => Some(EffectView::DockMerge(DockDir::Left)),
        PaletteCommand::MergeUp => Some(EffectView::DockMerge(DockDir::Up)),
        PaletteCommand::MergeDown => Some(EffectView::DockMerge(DockDir::Down)),
        PaletteCommand::MoveTabRight => Some(EffectView::DockMoveTab(DockDir::Right)),
        PaletteCommand::MoveTabLeft => Some(EffectView::DockMoveTab(DockDir::Left)),
        PaletteCommand::MoveTabUp => Some(EffectView::DockMoveTab(DockDir::Up)),
        PaletteCommand::MoveTabDown => Some(EffectView::DockMoveTab(DockDir::Down)),
        PaletteCommand::OpenFile => Some(EffectView::OpenFileDialog),
        PaletteCommand::BrowseArchive => Some(EffectView::MountActiveFile),
        PaletteCommand::Undo => Some(EffectView::UndoActiveFile),
        PaletteCommand::Redo => Some(EffectView::RedoActiveFile),
        _ => None,
    }
}

/// The effect of a toolbar command that a palette command stands for.
pub fn effect_of(command: PaletteCommand) -> (r: Option<CommandEffect>)
    ensures
        match (pane_effect(command), r) {
            (Some(v), Some(e)) => e@ == v,
            (None, None) => true,
            _ => false,
        },
{
    match command {
        PaletteCommand::SplitRight => Some(CommandEffect::DockSplit(DockDir::Right)),
        PaletteCommand::SplitLeft => Some(CommandEffect::DockSplit(DockDir::Left)),
        PaletteCommand::SplitUp => Some(CommandEffect::DockSplit(DockDir::Up)),
        PaletteCommand::SplitDown => Some(CommandEffect::DockSplit(DockDir::Down)),
        PaletteCommand::MergeRight => Some(CommandEffect::DockMerge(DockDir::Right)),
        PaletteCommand::MergeLeft => Some(CommandEffect::DockMerge(DockDir::Left)),
        PaletteCommand::MergeUp => Some(CommandEffect::DockMerge(DockDir::Up)),
        PaletteCommand::MergeDown => Some(CommandEffect::DockMerge(DockDir::Down)),
        PaletteCommand::MoveTabRight => Some(CommandEffect::DockMoveTab(DockDir::Right)),
        PaletteCommand::MoveTabLeft => Some(CommandEffect::DockMoveTab(DockDir::Left)),
        PaletteCommand::MoveTabUp => Some(CommandEffect::DockMoveTab(DockDir::Up)),
        PaletteCommand::MoveTabDown => Some(CommandEffect::DockMoveTab(DockDir::Down)),
        PaletteCommand::OpenFile => Some(CommandEffect::OpenFileDialog),
        PaletteCommand::BrowseArchive => Some(CommandEffect::MountActiveFile),
        PaletteCommand::Undo => Some(CommandEffect::UndoActiveFile),
        PaletteCommand::Redo => Some(CommandEffect::RedoActiveFile),
        _ => None,
    }
}

/// Whether a palette command was done, and what is left to do.
pub open spec fn command_done(before: HxyApp, command: PaletteCommand, r: Effect, after: HxyApp)
    -> bool {
    match pane_effect(command) {
        Some(effect) => effect_applied(before, effect, r, after),
        None => match command {
            PaletteCommand::NewFile => r matches Effect::KeepScratch { file_id, scratch }
                && scratch_made(before, (file_id, scratch), after),
            PaletteCommand::ToggleWorkspaceVfs => toggled_tree(before, r, after),
            PaletteCommand::ToggleToolPanel => r matches Effect::Tools(done) && tools_toggled(
                before,
                done,
                after,
            ),
            PaletteCommand::ToggleConsole => toggled_console(before, r, after),
            PaletteCommand::ToggleInspector => toggled_tool(before, Tab::Inspector, r, after),
            PaletteCommand::TogglePlugins => toggled_tool(before, Tab::Plugins, r, after),
            PaletteCommand::ToggleMemory => toggled_tool(before, Tab::Memory, r, after),
            PaletteCommand::ToggleSettings => r is Nothing && redocked(
                before,
                page_toggled(before.dock@, Tab::Settings),
                after,
            ),
            PaletteCommand::ToggleVim => r is Nothing && after == (HxyApp {
                settings: after.settings,
                ..before
            }) && after.settings == (AppSettings {
                vim_keys: !before.settings.vim_keys,
                ..before.settings
            }),
            PaletteCommand::Paste => paste_asked(before, false, r, after),
            PaletteCommand::PasteAsHex => paste_asked(before, true, r, after),
            PaletteCommand::MoveTabVisual => r is Nothing && pick_started(
                before,
                PaneOp::MoveTab,
                after,
            ),
            PaletteCommand::MergeVisual => r is Nothing && pick_started(
                before,
                PaneOp::Merge,
                after,
            ),
            PaletteCommand::FocusPane => r is Nothing && after == focus_pick_started(before),
            PaletteCommand::ToggleEditMode => r is Nothing && active_mode_toggled(before, after),
            PaletteCommand::CopyCaretOffset => after == after_active_file(before) && text_copied(
                active_offset_text(before, OffsetCopy::Caret),
                r,
            ),
            PaletteCommand::CopySelectionRange => after == after_active_file(before)
                && text_copied(active_offset_text(before, OffsetCopy::SelectionRange), r),
            PaletteCommand::CopySelectionLength => after == after_active_file(before)
                && text_copied(active_offset_text(before, OffsetCopy::SelectionLength), r),
            PaletteCommand::CopyFileLength => after == after_active_file(before) && text_copied(
                active_offset_text(before, OffsetCopy::FileLength),
                r,
            ),
            PaletteCommand::CompareFiles => r is Nothing && mode_shown(
                before,
                Mode::CompareSideA,
                after,
            ),
            PaletteCommand::JumpNextField => r == (Effect::JumpField { forward: true }) && after
                == before,
            PaletteCommand::JumpPrevField => r == (Effect::JumpField { forward: false }) && after
                == before,
            PaletteCommand::CloseToolPane => r is CloseToolPane && after == before,
            PaletteCommand::ReopenClosedTab => r is Nothing && after == before,
            _ => tool_asked(before, command, r, after),
        },
    }
}

/// Does what a palette command stands for.
#[verifier::rlimit(60)]
#[verifier::spinoff_prover]
pub fn invoke_command(app: &mut HxyApp, command: PaletteCommand) -> (r: Effect)
    requires
        old(app).wf(),
        old(app).next_file_id < u64::MAX,
        old(app).next_workspace_id < u64::MAX,
        old(app).files@.len() + old(app).open_tabs@.len() + old(app).mounts@.len() < u64::MAX,
    ensures
        final(app).wf(),
        command_done(*old(app), command, r, *final(app)),
{
    if let Some(effect) = effect_of(command) {
        return apply_command_effect(app, effect);
    }
    match command {
        PaletteCommand::NewFile => {
            let made = handle_new_file(app);
            assert(made == (made.0, made.1));
            Effect::KeepScratch { file_id: made.0, scratch: made.1 }
        },
        PaletteCommand::ToggleWorkspaceVfs => toggle_tree_effect(app),
        PaletteCommand::ToggleToolPanel => Effect::Tools(toggle_tools(app)),
        PaletteCommand::ToggleConsole => toggle_console_effect(app),
        PaletteCommand::ToggleInspector => toggle_tool_effect(app, Tab::Inspector),
        PaletteCommand::TogglePlugins => toggle_tool_effect(app, Tab::Plugins),
        PaletteCommand::ToggleMemory => toggle_tool_effect(app, Tab::Memory),
        PaletteCommand::ToggleSettings => {
            app.toggle_settings();
            Effect::Nothing
        },
        PaletteCommand::ToggleVim => {
            app.settings.vim_keys = !app.settings.vim_keys;
            Effect::Nothing
        },
        PaletteCommand::Paste => ask_paste(app, false),
        PaletteCommand::PasteAsHex => ask_paste(app, true),
        PaletteCommand::MoveTabVisual => {
            start_pane_pick(app, PaneOp::MoveTab);
            Effect::Nothing
        },
        PaletteCommand::MergeVisual => {
            start_pane_pick(app, PaneOp::Merge);
            Effect::Nothing
        },
        PaletteCommand::FocusPane => {
            start_pane_focus(app);
            Effect::Nothing
        },
        PaletteCommand::ToggleEditMode => {
            toggle_active_edit_mode(app);
            Effect::Nothing
        },
        PaletteCommand::CopyCaretOffset => copy_number(app, OffsetCopy::Caret),
        PaletteCommand::CopySelectionRange => copy_number(app, OffsetCopy::SelectionRange),
        PaletteCommand::CopySelectionLength => copy_number(app, OffsetCopy::SelectionLength),
        PaletteCommand::CopyFileLength => copy_number(app, OffsetCopy::FileLength),
        PaletteCommand::CompareFiles => {
            app.palette.open_at(Mode::CompareSideA);
            Effect::Nothing
        },
        PaletteCommand::JumpNextField => Effect::JumpField { forward: true },
        PaletteCommand::JumpPrevField => Effect::JumpField { forward: false },
        PaletteCommand::CloseToolPane => Effect::CloseToolPane,
        PaletteCommand::ReopenClosedTab => Effect::Nothing,
        _ => ask_tool(app, command),
    }
}

/// Whether a copy of what is selected in the active file is asked for.
pub open spec fn active_copied(before: HxyApp, kind: CopyKind, r: Effect, after: HxyApp) -> bool {
    &&& after == after_active_file(before)
    &&& match active_place(before) {
        Some(i) => match r {
            Effect::Copy(request) => copy_asked(before.files@[i].editor, kind, Some(request)),
            Effect::Nothing => copy_asked(before.files@[i].editor, kind, None),
            _ => false,
        },
        None => r is Nothing,
    }
}

pub(crate) fn copy_effect(app: &mut HxyApp, kind: CopyKind) -> (r: Effect)
    requires
        old(app).wf(),
    ensures
        final(app).wf(),
        active_copied(*old(app), kind, r, *final(app)),
{
    match copy_active_file(app, kind) {
        Some(request) => Effect::Copy(request),
        None => Effect::Nothing,
    }
}

/// Whether a place in the active file is to be seen, or nothing.
pub open spec fn revealed(at: Option<u64>, r: Effect) -> bool {
    match at {
        Some(offset) => r == Effect::Reveal(offset),
        None => r is Nothing,
    }
}

fn show_place(at: Option<u64>) -> (r: Effect)
    ensures
        revealed(at, r),
{
    match at {
        Some(offset) => Effect::Reveal(offset),
        None => Effect::Nothing,
    }
}

/// Whether one editor is another in which the caret of the active file went to
/// an offset.
pub open spec fn went_to(before: HxyApp, target: u64, r: Effect, after: HxyApp) -> bool {
    match active_place(before) {
        Some(i) => {
            let at = clamped(target, before.files@[i].editor.bytes@.len());
            r == Effect::Reveal(at) && active_reselected(
                before,
                Some(Selection::spec_caret(at)),
                after,
            )
        },
        None => r is Nothing && after == after_active_file(before),
    }
}

/// Whether one editor is another in which a range of the active file was
/// selected.
pub open spec fn range_selected(
    before: HxyApp,
    start: u64,
    end_exclusive: u64,
    r: Effect,
    after: HxyApp,
) -> bool {
    match active_place(before) {
        Some(i) => {
            let wanted = range_selection(
                start,
                end_exclusive,
                before.files@[i].editor.bytes@.len(),
            );
            active_reselected(before, wanted, after) && revealed(
                match wanted {
                    Some(sel) => Some(sel.anchor),
                    None => None,
                },
                r,
            )
        },
        None => r is Nothing && after == after_active_file(before),
    }
}

/// Whether one editor is another in which the active file's first byte got an
/// address.
pub open spec fn base_set(before: HxyApp, base: Option<u64>, after: HxyApp) -> bool {
    match active_place(before) {
        Some(i) => file_replaced(after_active_file(before), i, after) && after.files@[i] == (
        OpenFile { virtual_base: base, ..before.files@[i] }),
        None => after == after_active_file(before),
    }
}

/// Gives the active file's first byte an address, or takes it away.
pub fn set_virtual_base(app: &mut HxyApp, base: Option<u64>)
    requires
        old(app).wf(),
    ensures
        final(app).wf(),
        base_set(*old(app), base, *final(app)),
{
    if let Some(i) = find_active(app) {
        let ghost mid = *app;
        app.files[i].virtual_base = base;
        assert(app.files@ =~= mid.files@.update(i as int, app.files@[i as int]));
    }
}

/// Whether one editor is another in which a side of a comparison was picked.
/// After the first the palette asks for the second, and with both the
/// comparison is asked for.
pub open spec fn side_picked(
    before: HxyApp,
    side: CompareSide,
    source: TabSource,
    r: Effect,
    after: HxyApp,
) -> bool {
    match side {
        CompareSide::A => r is Nothing && mode_shown(
            HxyApp {
                palette: PaletteState { compare_first: Some(source), ..before.palette },
                ..before
            },
            Mode::CompareSideB,
            after,
        ),
        CompareSide::B => after == (HxyApp {
            palette: PaletteState { compare_first: None, ..before.palette },
            ..before
        }) && match before.palette.compare_first {
            Some(first) => r == (Effect::Compare { first, second: source }),
            None => r is Nothing,
        },
    }
}

pub(crate) fn pick_side(app: &mut HxyApp, side: CompareSide, source: TabSource) -> (r: Effect)
    requires
        old(app).wf(),
    ensures
        final(app).wf(),
        side_picked(*old(app), side, source, r, *final(app)),
{
    match side {
        CompareSide::A => {
            app.palette.compare_first = Some(source);
            app.palette.open_at(Mode::CompareSideB);
            Effect::Nothing
        },
        CompareSide::B => match app.palette.compare_first.take() {
            Some(first) => Effect::Compare { first, second: source },
            None => Effect::Nothing,
        },
    }
}

/// Whether a pick from the palette was done, and what is left to do. Every pick
/// but one that leads to another mode closes the palette first.
pub open spec fn action_done(before: HxyApp, action: Action, r: Effect, after: HxyApp) -> bool {
    let mid = shut(before);
    match action {
        Action::InvokeCommand(command) => command_done(mid, command, r, after),
        Action::FocusFile(id) => r is Nothing && file_focused(mid, id, after),
        Action::FocusTab(tab) => r is Nothing && redocked(
            mid,
            shown(mid.dock@, DockTab::Outer(tab)),
            after,
        ),
        Action::RunTemplate(path) => after == after_active_file(mid) && template_asked(
            mid,
            path@,
            r,
        ),
        Action::SwitchMode(mode) => r is Nothing && mode_shown(before, mode, after),
        Action::InstallTemplate => r is InstallTemplateDialog && after == mid,
        Action::UninstallTemplate(path) => r == Effect::UninstallTemplate(path) && after == mid,
        Action::UninstallPlugin(path) => r == Effect::UninstallPlugin(path) && after == mid,
        Action::Copy(kind) => active_copied(mid, kind, r, after),
        Action::OpenRecent(path) => r == Effect::OpenPath(path) && after == mid,
        Action::GoToOffset(target) => went_to(mid, target, r, after),
        Action::SetSelection { start, end_exclusive } => range_selected(
            mid,
            start,
            end_exclusive,
            r,
            after,
        ),
        Action::SetColumns { scope, count } => r is Nothing && columns_chosen(
            mid,
            scope,
            count,
            after,
        ),
        Action::SetVirtualBase(base) => r is Nothing && base_set(mid, base, after),
        Action::InvokePluginCommand { plugin_name, command_id } => r == (Effect::InvokePlugin {
            plugin_name,
            command_id,
        }) && after == mid,
        Action::RespondToPlugin { plugin_name, command_id, answer } => r
            == (Effect::RespondToPlugin { plugin_name, command_id, answer }) && after == mid,
        Action::CompareSelectSource { side, source } => side_picked(mid, side, source, r, after),
        Action::NoOp => r is Nothing && after == mid,
    }
}

/// Does what picking a row of the palette asks for.
#[verifier::rlimit(60)]
#[verifier::spinoff_prover]
pub fn apply_palette_action(app: &mut HxyApp, action: Action) -> (r: Effect)
    requires
        old(app).wf(),
        old(app).next_file_id < u64::MAX,
        old(app).next_workspace_id < u64::MAX,
        old(app).files@.len() + old(app).open_tabs@.len() + old(app).mounts@.len() < u64::MAX,
    ensures
        final(app).wf(),
        action_done(*old(app), action, r, *final(app)),
{
    if let Action::SwitchMode(mode) = action {
        app.palette.open_at(mode);
        return Effect::Nothing;
    }
    app.palette.close();
    match action {
        Action::InvokeCommand(command) => invoke_command(app, command),
        Action::FocusFile(id) => {
            focus_file_tab(app, id);
            Effect::Nothing
        },
        Action::FocusTab(tab) => {
            focus_dock_tab(app, tab);
            Effect::Nothing
        },
        Action::RunTemplate(path) => run_template(app, path),
        Action::SwitchMode(_) => Effect::Nothing,
        Action::InstallTemplate => Effect::InstallTemplateDialog,
        Action::UninstallTemplate(path) => Effect::UninstallTemplate(path),
        Action::UninstallPlugin(path) => Effect::UninstallPlugin(path),
        Action::Copy(kind) => copy_effect(app, kind),
        Action::OpenRecent(path) => Effect::OpenPath(path),
        Action::GoToOffset(target) => show_place(go_to_offset(app, target)),
        Action::SetSelection { start, end_exclusive } => show_place(
            set_selection(app, start, end_exclusive),
        ),
        Action::SetColumns { scope, count } => {
            choose_columns(app, scope, count);
            Effect::Nothing
        },
        Action::SetVirtualBase(base) => {
            set_virtual_base(app, base);
            Effect::Nothing
        },
        Action::InvokePluginCommand { plugin_name, command_id } => Effect::InvokePlugin {
            plugin_name,
            command_id,
        },
        Action::RespondToPlugin { plugin_name, command_id, answer } => Effect::RespondToPlugin {
            plugin_name,
            command_id,
            answer,
        },
        Action::CompareSelectSource { side, source } => pick_side(app, side, source),
        Action::NoOp => Effect::Nothing,
    }
}

/// Whether the key of the palette was answered.
pub open spec fn palette_key_answered(
    before: HxyApp,
    after: HxyApp,
) -> bool {
    &&& before.palette.open ==> after == shut(before)
    &&& !before.palette.open ==> mode_shown(
        HxyApp { pending_pane_pick: None, ..before },
        Mode::Main,
        after,
    )
}

/// Opens the palette, or closes it. A pane is not pointed out while it is open.
pub fn palette_key(app: &mut HxyApp)
    requires
        old(app).wf(),
    ensures
        final(app).wf(),
        palette_key_answered(*old(app), *final(app)),
{
    if toggle_palette(&mut app.palette) {
        app.pending_pane_pick = None;
    }
}

/// Whether the palette was left without a pick.
pub open spec fn palette_dismissed(
    before: HxyApp,
    reason: DismissReason,
    after: HxyApp,
) -> bool {
    &&& if reason is Key && before.settings.palette_escape_pops_to_parent && !(before.palette.mode is Main) {
        mode_shown(before, Mode::Main, after)
    } else {
        after == shut(before)
    }
}

/// Leaves the palette without a pick.
pub fn leave_palette(app: &mut HxyApp, reason: DismissReason)
    requires
        old(app).wf(),
    ensures
        final(app).wf(),
        palette_dismissed(*old(app), reason, *final(app)),
{
    let pops = app.settings.palette_escape_pops_to_parent;
    dismiss_palette(&mut app.palette, reason, pops);
}

/// Every pick from the palette closes it, but one that leads to another mode or asks for
/// the other side of a comparison. A row that only tells something does nothing else.
pub proof fn law_pick_closes_palette(before: HxyApp, action: Action, r: Effect, after: HxyApp)
    requires
        action_done(before, action, r, after),
    ensures
        action is SwitchMode ==> after.palette.open && after.palette.mode
            == action->SwitchMode_0 && after.files == before.files && after.dock == before.dock,
        action is NoOp ==> !after.palette.open && r is Nothing && after.files == before.files
            && after.dock == before.dock,
        action is GoToOffset || action is SetSelection || action is OpenRecent || action
            is RunTemplate || action is InvokePluginCommand || action is RespondToPlugin || action
            is UninstallTemplate || action is UninstallPlugin || action is InstallTemplate
            || action is FocusFile || action is FocusTab || action is SetVirtualBase
            ==> !after.palette.open,
{
}

/// Picking an offset puts the caret of the active file there, or on the last byte where
/// the file is shorter; picking a range selects exactly that range. The place is to be
/// seen, and no byte changes.
pub proof fn law_picked_place_is_gone_to(
    before: HxyApp,
    target: u64,
    start: u64,
    end: u64,
    went: Effect,
    at_target: HxyApp,
    selected: Effect,
    with_range: HxyApp,
    i: int,
)
    requires
        active_place(shut(before)) == Some(i),
        action_done(before, Action::GoToOffset(target), went, at_target),
        action_done(
            before,
            Action::SetSelection { start, end_exclusive: end },
            selected,
            with_range,
        ),
    ensures
        ({
            let len = before.files@[i].editor.bytes@.len();
            &&& at_target.files@[i].editor.selection matches Some(sel) && sel.anchor == sel.cursor
                && went == Effect::Reveal(sel.cursor) && (target < len ==> sel.cursor == target) && (
            target >= len && len > 0 ==> sel.cursor + 1 == len)
            &&& at_target.files@[i].editor.bytes == before.files@[i].editor.bytes
            &&& start < end && end <= len ==> (with_range.files@[i].editor.selection matches Some(
                sel,
            ) && sel.anchor == start && sel.cursor + 1 == end) && selected == Effect::Reveal(start)
            &&& end <= start ==> with_range.files@[i].editor.selection
                == before.files@[i].editor.selection && selected is Nothing
            &&& with_range.files@[i].editor.bytes == before.files@[i].editor.bytes
        }),
{
}

/// What is picked is what is asked for: that path, that template, that plugin's command
/// with that answer.
pub proof fn law_pick_asks_for_what_was_picked(
    before: HxyApp,
    action: Action,
    r: Effect,
    after: HxyApp,
)
    requires
        action_done(before, action, r, after),
    ensures
        action matches Action::OpenRecent(p) ==> r == Effect::OpenPath(p),
        action matches Action::UninstallTemplate(p) ==> r == Effect::UninstallTemplate(p),
        action matches Action::UninstallPlugin(p) ==> r == Effect::UninstallPlugin(p),
        action is InstallTemplate ==> r is InstallTemplateDialog,
        action matches Action::InvokePluginCommand { plugin_name, command_id } ==> r == (
        Effect::InvokePlugin { plugin_name, command_id }),
        action matches Action::RespondToPlugin { plugin_name, command_id, answer } ==> r == (
        Effect::RespondToPlugin { plugin_name, command_id, answer }),
        action matches Action::RunTemplate(p) ==> match active_file(shut(before)) {
            Some(id) => r matches Effect::RunTemplate { file_id, path } && file_id == id && path@
                == p@,
            None => r is Nothing,
        },
        action matches Action::SetVirtualBase(base) ==> (active_place(shut(before)) matches Some(i)
            ==> after.files@[i].virtual_base == base && after.files@[i].editor
            == before.files@[i].editor),
{
}

/// A file that is picked is the one that commands act on then.
pub proof fn law_picked_file_comes_to_front(before: HxyApp, id: FileId, r: Effect, after: HxyApp)
    requires
        action_done(before, Action::FocusFile(id), r, after),
        before.dock@.holds(DockTab::Outer(Tab::File(id))),
        before.dock@.find(DockTab::Outer(Tab::File(id))) is Some,
    ensures
        active_file(after) == Some(id),
        after.files == before.files,
{
    crate::session::law_focused_file_becomes_active(shut(before), id, after);
}

/// The first file of a comparison is remembered until the second is picked; then both
/// are compared in that order.
pub proof fn law_comparison_has_both_picks(
    before: HxyApp,
    a: TabSource,
    first: Effect,
    mid: HxyApp,
    b: TabSource,
    second: Effect,
    after: HxyApp,
)
    requires
        side_picked(before, CompareSide::A, a, first, mid),
        side_picked(mid, CompareSide::B, b, second, after),
    ensures
        first is Nothing && mid.palette.open && mid.palette.mode is CompareSideB,
        second == (Effect::Compare { first: a, second: b }),
        after.palette.compare_first is None,
        after.files == before.files,
{
}

/// Each command for panes has its own direction, and each for files its own effect.
pub proof fn law_command_means_its_direction(command: PaletteCommand)
    ensures
        command is SplitRight <==> pane_effect(command) == Some(
            EffectView::DockSplit(DockDir::Right),
        ),
        command is SplitLeft <==> pane_effect(command) == Some(EffectView::DockSplit(DockDir::Left)),
        command is SplitUp <==> pane_effect(command) == Some(EffectView::DockSplit(DockDir::Up)),
        command is SplitDown <==> pane_effect(command) == Some(EffectView::DockSplit(DockDir::Down)),
        command is MergeRight <==> pane_effect(command) == Some(
            EffectView::DockMerge(DockDir::Right),
        ),
        command is MergeLeft <==> pane_effect(command) == Some(EffectView::DockMerge(DockDir::Left)),
        command is MergeUp <==> pane_effect(command) == Some(EffectView::DockMerge(DockDir::Up)),
        command is MergeDown <==> pane_effect(command) == Some(EffectView::DockMerge(DockDir::Down)),
        command is MoveTabRight <==> pane_effect(command) == Some(
            EffectView::DockMoveTab(DockDir::Right),
        ),
        command is MoveTabLeft <==> pane_effect(command) == Some(
            EffectView::DockMoveTab(DockDir::Left),
        ),
        command is MoveTabUp <==> pane_effect(command) == Some(EffectView::DockMoveTab(DockDir::Up)),
        command is MoveTabDown <==> pane_effect(command) == Some(
            EffectView::DockMoveTab(DockDir::Down),
        ),
        command is Undo <==> pane_effect(command) == Some(EffectView::UndoActiveFile),
        command is Redo <==> pane_effect(command) == Some(EffectView::RedoActiveFile),
        command is OpenFile <==> pane_effect(command) == Some(EffectView::OpenFileDialog),
        command is BrowseArchive <==> pane_effect(command) == Some(EffectView::MountActiveFile),
{
}

/// Undo takes a step of the active file back and redo does it again; a split asks for a
/// pane on the side that was asked for, with half the space and the placeholder page.
pub proof fn law_command_effects(
    before: HxyApp,
    command: PaletteCommand,
    r: Effect,
    after: HxyApp,
    at: NodePos,
)
    requires
        command_done(before, command, r, after),
    ensures
        command is Undo ==> active_undone(before, after) && r is Nothing,
        command is Redo ==> active_redone(before, after) && r is Nothing,
        command is ToggleEditMode ==> active_mode_toggled(before, after),
        command is ToggleVim ==> after.settings.vim_keys == !before.settings.vim_keys && after.files
            == before.files,
        command is JumpNextField ==> r == (Effect::JumpField { forward: true }),
        command is JumpPrevField ==> r == (Effect::JumpField { forward: false }),
        command is OpenFile ==> r is OpenFileDialog && after == before,
        command is Paste ==> (r is ReadClipboard <==> accepts_paste(before)) && (
        r matches Effect::ReadClipboard { as_hex } ==> !as_hex),
        command is PasteAsHex ==> (r is ReadClipboard <==> accepts_paste(before)) && (
        r matches Effect::ReadClipboard { as_hex } ==> as_hex),
        (command is SplitRight || command is SplitLeft || command is SplitUp || command
            is SplitDown) && before.dock@.focused_leaf() == Some(
            (at.surface as nat, at.node as nat),
        ) ==> (r matches Effect::Split(s) && s.at == at && s.keep_percent == 50 && s.tabs@ == seq![
            DockTab::Outer(Tab::Welcome),
        ] && (command is SplitRight ==> s.dir is Right) && (command is SplitLeft ==> s.dir is Left)
            && (command is SplitUp ==> s.dir is Up) && (command is SplitDown ==> s.dir is Down)),
{
}

/// What is computed for the active file is computed for that very file: over the
/// selection where that was asked for, else over all of it; a download offers its name and
/// its bytes.
pub proof fn law_tools_act_on_active_file(
    before: HxyApp,
    command: PaletteCommand,
    r: Effect,
    after: HxyApp,
    i: int,
)
    requires
        tool_asked(before, command, r, after),
        active_place(before) == Some(i),
    ensures
        ({
            let file = before.files@[i];
            &&& command is FindStringsSelection ==> r == (Effect::FindStrings {
                file_id: file.id,
                part: file.editor.selection,
            })
            &&& command is FindStringsWholeFile ==> r == (Effect::FindStrings {
                file_id: file.id,
                part: None,
            })
            &&& command is CalculateChecksumsSelection ==> r == (Effect::Checksums {
                file_id: file.id,
                part: file.editor.selection,
            })
            &&& command is CalculateChecksumsWholeFile ==> r == (Effect::Checksums {
                file_id: file.id,
                part: None,
            })
            &&& command is ComputeEntropy ==> r == (Effect::Entropy { file_id: file.id })
            &&& command is SaveAsDownload ==> (r matches Effect::Download { name, bytes } && name@
                == file.display_name@ && bytes@ == file.editor.bytes@)
            &&& command is CopyCaretAddress ==> (file.editor.selection matches Some(sel) ==> (
            file.virtual_base matches Some(base) ==> r == (Effect::CopyAddress {
                offset: sel.cursor,
                base,
            })))
            &&& after.files == before.files
        }),
{
}

/// A pane that was pointed out gets the focus, or the tab or all tabs of the pane from
/// which it started, as was asked for; to give up changes no pane.
pub proof fn law_pointed_out_pane_is_operated_on(
    before: HxyApp,
    pick: PendingPanePick,
    step: PickStep,
    after: HxyApp,
)
    requires
        before.pending_pane_pick == Some(pick),
        pick_stepped(before, step, after),
    ensures
        step is Continue ==> after == before,
        step is Cancel ==> after.pending_pane_pick is None && after.dock == before.dock,
        step matches PickStep::Picked(target) ==> {
            &&& after.pending_pane_pick is None
            &&& pick.op is Focus && before.dock@.leaf(target) is Some ==> after.dock@.focused_leaf()
                == Some((target.surface as nat, target.node as nat)) && after.tab_focus is Outer
                && after.dock@.tabs() == before.dock@.tabs()
            &&& pick.op is MoveTab ==> (pick.source matches Some(source) ==> after.dock@
                == tab_moved(before.dock@, source, target))
            &&& pick.op is Merge ==> (pick.source matches Some(source) ==> after.dock@ == merged(
                before.dock@,
                source,
                target,
            ))
            &&& after.files == before.files
        },
{
    match step {
        PickStep::Picked(target) => {
            crate::dock::lemma_focused_on_tabs(before.dock@, target);
        },
        _ => {},
    }
}

/// The keys that cycle tabs act on the outer dock, or on the workspace whose tabs have
/// the keys, and on nothing else.
pub proof fn law_cycling_acts_where_the_keys_are(
    before: HxyApp,
    forward: bool,
    after: HxyApp,
    at: NodePos,
    w: int,
    k: int,
)
    requires
        before.wf(),
        tabs_cycled(before, forward, after),
    ensures
        after.files == before.files,
        before.tab_focus is Outer ==> after.workspaces == before.workspaces,
        before.tab_focus is Outer && before.dock@.focused_leaf() == Some(
            (at.surface as nat, at.node as nat),
        ) ==> after.dock@ == leaf_cycled(before.dock@, at, forward),
        0 <= w < before.workspaces@.len() && before.tab_focus == TabFocus::Workspace(
            before.workspaces@[w].id,
        ) ==> after.dock == before.dock && (0 <= k < before.workspaces@.len() && k != w
            ==> after.workspaces@[k] == before.workspaces@[k]) && (
        before.workspaces@[w].dock@.focused_leaf() == Some((at.surface as nat, at.node as nat))
            ==> after.workspaces@[w].dock@ == leaf_cycled(before.workspaces@[w].dock@, at, forward)),
{
    if 0 <= w < before.workspaces@.len() {
        crate::session::lemma_workspace_at(before.workspaces@, before.workspaces@[w].id, w);
    }
}

/// The key of the palette opens it at its root, and then no pane is being pointed out;
/// it closes it where it is open. A pane is pointed out for focus only with the palette
/// closed.
pub proof fn law_palette_key_toggles(
    before: HxyApp,
    after: HxyApp,
    pointed: HxyApp,
    switched: HxyApp,
)
    requires
        palette_key_answered(before, after),
        focus_key_answered(before, pointed),
        tab_focus_switched(before, switched),
    ensures
        after.palette.open == !before.palette.open,
        after.palette.open ==> after.palette.mode is Main && after.pending_pane_pick is None,
        before.pending_pane_pick is None ==> !pointed.palette.open && (
        pointed.pending_pane_pick matches Some(p) && p.op is Focus),
        before.pending_pane_pick is Some ==> pointed == before,
        before.tab_focus is Workspace ==> switched.tab_focus is Outer,
        after.files == before.files && pointed.files == before.files && switched.files
            == before.files,
{
}

/// A key that leaves the palette goes back to its main list where that is preferred and
/// another mode is shown; else the palette closes. No file changes.
pub proof fn law_leaving_goes_back_or_closes(before: HxyApp, reason: DismissReason, after: HxyApp)
    requires
        palette_dismissed(before, reason, after),
    ensures
        reason is Key && before.settings.palette_escape_pops_to_parent && !(before.palette.mode
            is Main) ==> after.palette.open && after.palette.mode is Main
            && after.palette.query@.len() == 0,
        !(reason is Key) || !before.settings.palette_escape_pops_to_parent || before.palette.mode
            is Main ==> !after.palette.open && after.palette.mode == before.palette.mode,
        after.files == before.files && after.dock == before.dock,
{
}

/// A pick of a pane starts from the pane that commands act on, for the operation that
/// was asked for, and closes the palette.
pub proof fn law_pick_starts_from_target_pane(before: HxyApp, op: PaneOp, after: HxyApp, at: NodePos)
    requires
        pick_started(before, op, after),
        target_leaf(before.dock@, active_file(before)) == Some((at.surface as nat, at.node as nat)),
    ensures
        after.pending_pane_pick matches Some(pick) && pick.op == op && pick.source == Some(at),
        !after.palette.open,
        after.files == before.files && after.dock == before.dock,
{
}

/// What a button of the toolbar asks for is done: the path that it tells is opened, the
/// template that it tells is run on the active file, and edits are taken back or done
/// again.
pub proof fn law_toolbar_effect_is_done(
    before: HxyApp,
    effect: EffectView,
    r: Effect,
    after: HxyApp,
)
    requires
        effect_applied(before, effect, r, after),
    ensures
        effect matches EffectView::OpenRecent(p) ==> (r matches Effect::OpenPath(q) && q@ == p)
            && after == before,
        effect matches EffectView::RunTemplateDirect(p) ==> match active_file(before) {
            Some(id) => r matches Effect::RunTemplate { file_id, path } && file_id == id && path@
                == p,
            None => r is Nothing,
        },
        effect is UndoActiveFile ==> active_undone(before, after) && r is Nothing,
        effect is RedoActiveFile ==> active_redone(before, after) && r is Nothing,
        effect is OpenFileDialog ==> r is OpenFileDialog && after == before,
        effect is RunTemplateDialog ==> r is RunTemplateDialog && after == before,
{
}

/// Merging and moving go from the pane that has the focus to the one beside it in the
/// direction that was asked for; without one nothing moves.
pub proof fn law_panes_are_joined_in_direction(
    before: HxyApp,
    dir: DockDir,
    joined: HxyApp,
    moved: HxyApp,
    from: NodePos,
    to: NodePos,
)
    requires
        pane_merged(before, dir, joined),
        pane_tab_moved(before, dir, moved),
        before.dock@.focused_leaf() == Some((from.surface as nat, from.node as nat)),
        before.dock@.has_tree(from.surface as int),
        to.surface == from.surface,
    ensures
        crate::panes::neighbor(
            before.dock@.tree(from.surface as int).nodes,
            from.node as int,
            dir,
        ) == Some(to.node as nat) ==> joined.dock@ == merged(before.dock@, from, to)
            && moved.dock@ == tab_moved(before.dock@, from, to),
        crate::panes::neighbor(
            before.dock@.tree(from.surface as int).nodes,
            from.node as int,
            dir,
        ) is None ==> joined.dock@ == before.dock@ && moved.dock@ == before.dock@,
        joined.files == before.files && moved.files == before.files,
{
}

} // verus!

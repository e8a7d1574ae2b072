use hxy::commands::{click, default_commands, draw, ActiveFile, CommandEffect, CommandKind, DockDir,
    SuggestedTemplate, ToolbarCtx};
use hxy::copy::CopyKind;
use hxy::dispatch::{apply_palette_action, dispatch_tab_cycle, handle_pane_pick, invoke_command,
    leave_palette, palette_key, start_pane_pick, Effect, PickStep};
use hxy::dock::NodePos;
use hxy::dock_ops::focus_tab;
use hxy::editor::{EditMode, Selection};
use hxy::frame::{apply_global_search_event, take_rescan, GlobalSearchEvent};
use hxy::hexview::{build_palette, byte_tint, hex_body_plan, range_contains, status_bar, ByteTint,
    PaletteChoice};
use hxy::labels::{Icon, Label, Shortcut};
use hxy::menu::{copy_key, dispatch_copy_shortcut, dispatch_find_shortcut,
    dispatch_paste_shortcut, dispatch_save_shortcut, drain_native_menu, edit_mode_label,
    sync_native_menu_state, MenuAction, MenuEffect, PasteStep, SaveKeys};
use hxy::opening::FileFacts;
use hxy::palette::{Action, CompareSide, DismissReason, Entry, Mode, PaletteCommand};
use hxy::palette_inputs::{file_rows, panel_flags};
use hxy::palette_rows::{build_palette_entries, CopyContext, CopyRow, HistoryContext, MainLists,
    Number, OffsetContext, PaletteInputs, PanelFlags, TypedArgument};
use hxy::save::SavePlan;
use hxy::session::{find_file, focus_file_tab, HxyApp, PaneOp};
use hxy::settings::{AppSettings, AutoReload, ByteHighlightMode, ByteHighlightScheme, OffsetBase,
    RecentFile};
use hxy::source::TabSource;
use hxy::tabs::{DockTab, FileId, Tab, TabFocus};

fn settings() -> AppSettings {
    AppSettings {
        offset_base: OffsetBase::Hex,
        hex_columns: 16,
        byte_value_highlight: true,
        byte_highlight_mode: ByteHighlightMode::Background,
        byte_highlight_scheme: ByteHighlightScheme::Class,
        show_minimap: true,
        minimap_colored: false,
        address_separator_enabled: true,
        address_separator_char: '_',
        check_for_updates: false,
        palette_escape_pops_to_parent: true,
        vim_keys: false,
        auto_reload: AutoReload::Ask,
        watch_prefs: Vec::new(),
        recent_files: Vec::new(),
    }
}

fn start() -> HxyApp {
    HxyApp::new(settings(), Vec::new(), true, false)
}

fn open_disk(app: &mut HxyApp, name: &str, bytes: &[u8]) -> FileId {
    let facts = FileFacts { handler: None, suggested_template: None, parent_dir: None };
    let id = app.open_filesystem(
        name.to_owned(),
        format!("/d/{name}"),
        bytes.to_vec(),
        None,
        None,
        facts,
    );
    focus_file_tab(app, id);
    id
}

fn nothing_typed() -> TypedArgument {
    TypedArgument {
        number: Err("empty".to_owned()),
        target: Err("empty".to_owned()),
        range: Err("empty".to_owned()),
    }
}

fn inputs(app: &HxyApp, typed: TypedArgument) -> PaletteInputs {
    PaletteInputs {
        recents: vec![
            RecentFile { path: "/d/x.bin".to_owned(), name: "x.bin".to_owned(), parent: None },
            RecentFile { path: "/d/old".to_owned(), name: "old".to_owned(), parent: None },
        ],
        flags: panel_flags(app),
        base: OffsetBase::Hex,
        lists: MainLists {
            copy_bytes: vec![CopyRow { label: "Hex".to_owned(), kind: CopyKind::BytesHexSpaced }],
            copy_values: vec![CopyRow { label: "u16".to_owned(), kind: CopyKind::Value(1) }],
            files: file_rows(&app.files, vec![None; app.files.len()]),
            plugins: Vec::new(),
        },
        ranked_templates: Vec::new(),
        installed_templates: Vec::new(),
        installed_plugins: Vec::new(),
        typed,
        cascade: None,
        prompt: None,
    }
}

fn quiet() -> HistoryContext {
    HistoryContext { can_undo: false, can_redo: false, can_paste: false, has_active_file: true }
}

fn somewhere() -> OffsetContext {
    OffsetContext {
        cursor: 4,
        source_len: 16,
        available: true,
        selection: None,
        virtual_base: None,
    }
}

fn nowhere() -> OffsetContext {
    OffsetContext {
        cursor: 0,
        source_len: 0,
        available: false,
        selection: None,
        virtual_base: None,
    }
}

fn has(rows: &[Entry], command: PaletteCommand) -> bool {
    rows.iter().any(|r| matches!(&r.action, Action::InvokeCommand(c) if *c == command))
}

#[test]
fn the_main_list_follows_what_can_be_done() {
    let mut app = start();
    open_disk(&mut app, "x.bin", &[1, 2]);
    let rows = build_palette_entries(
        Mode::Main,
        "",
        &inputs(&app, nothing_typed()),
        None,
        quiet(),
        somewhere(),
    );
    assert!(has(&rows, PaletteCommand::NewFile));
    assert!(!has(&rows, PaletteCommand::Undo));
    assert!(!has(&rows, PaletteCommand::Paste));
    assert!(rows.iter().any(|r| matches!(r.action, Action::SwitchMode(Mode::GoToOffset))));
    assert!(rows.iter().any(|r| matches!(r.action, Action::FocusFile(FileId(1)))));
    assert!(!rows.iter().any(|r| matches!(r.action, Action::Copy(_))));
    let h = HistoryContext { can_undo: true, can_redo: true, can_paste: true, has_active_file: true };
    let rows = build_palette_entries(
        Mode::Main,
        "",
        &inputs(&app, nothing_typed()),
        Some(CopyContext { scalar_width: false }),
        h,
        somewhere(),
    );
    assert!(has(&rows, PaletteCommand::Undo) && has(&rows, PaletteCommand::PasteAsHex));
    assert!(rows.iter().any(|r| matches!(r.action, Action::Copy(CopyKind::BytesHexSpaced))));
    assert!(!rows.iter().any(|r| matches!(r.action, Action::Copy(CopyKind::Value(_)))));
    let first = &rows[0];
    assert!(matches!(first.label, Label::Key("menu-file-new")));
    assert_eq!(first.icon, Some(Icon::FilePlus));
    assert_eq!(first.shortcut, Some(Shortcut::NewFile));
}

#[test]
fn files_that_are_open_are_no_recent_files() {
    let mut app = start();
    open_disk(&mut app, "x.bin", &[1]);
    let rows = build_palette_entries(
        Mode::Recent,
        "",
        &inputs(&app, nothing_typed()),
        None,
        quiet(),
        nowhere(),
    );
    assert_eq!(rows.len(), 1);
    assert!(matches!(&rows[0].action, Action::OpenRecent(p) if p == "/d/old"));
}

#[test]
fn an_offset_is_asked_for() {
    let app = start();
    let typed = TypedArgument {
        number: Ok(Number::Absolute(10)),
        target: Ok(10),
        range: Ok((2, 6)),
    };
    let given = inputs(&app, typed);
    let row = |mode, at| build_palette_entries(mode, " 0xa ", &given, None, quiet(), at);
    assert!(matches!(row(Mode::GoToOffset, somewhere())[0].action, Action::GoToOffset(10)));
    assert!(matches!(
        row(Mode::SelectRange, somewhere())[0].action,
        Action::SetSelection { start: 2, end_exclusive: 6 }
    ));
    assert!(matches!(
        row(Mode::SetColumnsGlobal, nowhere())[0].action,
        Action::SetColumns { count: 10, .. }
    ));
    // Without a file there is nothing to go to.
    let none = row(Mode::GoToOffset, nowhere());
    assert!(matches!(none[0].action, Action::NoOp));
    assert!(matches!(&none[0].subtitle, Some(Label::Text(t)) if t == "0xa"));
    // Nothing typed, nothing listed.
    assert!(build_palette_entries(Mode::GoToOffset, "  ", &given, None, quiet(), somewhere())
        .is_empty());
}

#[test]
fn columns_have_to_be_in_bounds() {
    let app = start();
    let too_many = TypedArgument {
        number: Ok(Number::Absolute(65)),
        target: Ok(0),
        range: Err(String::new()),
    };
    let rows = build_palette_entries(
        Mode::SetColumnsGlobal,
        "65",
        &inputs(&app, too_many),
        None,
        quiet(),
        nowhere(),
    );
    assert!(matches!(rows[0].action, Action::NoOp));
    let signed = TypedArgument {
        number: Ok(Number::Relative(4)),
        target: Ok(0),
        range: Err(String::new()),
    };
    let rows = build_palette_entries(
        Mode::SetColumnsGlobal,
        "+4",
        &inputs(&app, signed),
        None,
        quiet(),
        nowhere(),
    );
    assert!(matches!(rows[0].action, Action::NoOp));
}

#[test]
fn a_pick_does_its_action() {
    let mut app = start();
    let id = open_disk(&mut app, "x.bin", &[1, 2, 3]);
    palette_key(&mut app);
    assert!(app.palette.open);
    match apply_palette_action(&mut app, Action::GoToOffset(2)) {
        Effect::Reveal(at) => assert_eq!(at, 2),
        _ => panic!("the place is not shown"),
    }
    assert!(!app.palette.open);
    assert_eq!(app.files[0].editor.selection, Some(Selection::caret(2)));
    apply_palette_action(&mut app, Action::SwitchMode(Mode::Templates));
    assert!(app.palette.open);
    leave_palette(&mut app, DismissReason::Key);
    assert_eq!(app.palette.mode, Mode::Main);
    assert!(app.palette.open);
    leave_palette(&mut app, DismissReason::Backdrop);
    assert!(!app.palette.open);
    match apply_palette_action(&mut app, Action::RunTemplate("/t.bt".to_owned())) {
        Effect::RunTemplate { file_id, path } => assert_eq!((file_id, path.as_str()), (id, "/t.bt")),
        _ => panic!("no template runs"),
    }
    let a = TabSource::Filesystem("/a".to_owned());
    let b = TabSource::Filesystem("/b".to_owned());
    apply_palette_action(&mut app, Action::CompareSelectSource { side: CompareSide::A, source: a });
    assert_eq!(app.palette.mode, Mode::CompareSideB);
    assert!(matches!(
        apply_palette_action(&mut app, Action::CompareSelectSource { side: CompareSide::B, source: b }),
        Effect::Compare { .. }
    ));
}

#[test]
fn commands_act_on_the_active_file() {
    let mut app = start();
    open_disk(&mut app, "x.bin", &[1, 2, 3]);
    app.files[0].editor.selection = Some(Selection { anchor: 0, cursor: 1 });
    match invoke_command(&mut app, PaletteCommand::CopySelectionLength) {
        Effect::CopyText(t) => assert_eq!(t, "0x2"),
        _ => panic!("no length was copied"),
    }
    match invoke_command(&mut app, PaletteCommand::CopyFileLength) {
        Effect::CopyText(t) => assert_eq!(t, "0x3"),
        _ => panic!("no length was copied"),
    }
    assert!(matches!(invoke_command(&mut app, PaletteCommand::Paste), Effect::Nothing));
    invoke_command(&mut app, PaletteCommand::ToggleEditMode);
    assert!(matches!(
        invoke_command(&mut app, PaletteCommand::PasteAsHex),
        Effect::ReadClipboard { as_hex: true }
    ));
    invoke_command(&mut app, PaletteCommand::ToggleVim);
    assert!(app.settings.vim_keys);
    match invoke_command(&mut app, PaletteCommand::ToggleInspector) {
        Effect::Split(s) => assert_eq!(s.tabs, vec![DockTab::Outer(Tab::Inspector)]),
        _ => panic!("no pane is made"),
    }
    match invoke_command(&mut app, PaletteCommand::SplitRight) {
        Effect::Split(s) => assert_eq!(s.dir, DockDir::Right),
        _ => panic!("no pane is made"),
    }
    assert!(matches!(
        invoke_command(&mut app, PaletteCommand::NewFile),
        Effect::KeepScratch { scratch: 0, .. }
    ));
}

#[test]
fn a_pane_is_pointed_out() {
    let mut app = start();
    let id = open_disk(&mut app, "x.bin", &[1]);
    app.dock.state.main_surface_mut().split_right(
        egui_dock::NodeIndex::root(),
        0.5,
        vec![DockTab::Outer(Tab::Console)],
    );
    focus_tab(&mut app.dock, DockTab::Outer(Tab::File(id)));
    start_pane_pick(&mut app, PaneOp::MoveTab);
    assert!(app.pending_pane_pick.is_some());
    handle_pane_pick(&mut app, PickStep::Continue);
    assert!(app.pending_pane_pick.is_some());
    handle_pane_pick(&mut app, PickStep::Picked(NodePos { surface: 0, node: 2 }));
    assert!(app.pending_pane_pick.is_none());
    assert_eq!(app.dock.find_tab(&DockTab::Outer(Tab::File(id))).unwrap().node, 2);
    start_pane_pick(&mut app, PaneOp::Merge);
    handle_pane_pick(&mut app, PickStep::Cancel);
    assert!(app.pending_pane_pick.is_none());
}

#[test]
fn tabs_are_cycled_by_key() {
    let mut app = start();
    let a = open_disk(&mut app, "a", &[]);
    let b = open_disk(&mut app, "b", &[]);
    focus_tab(&mut app.dock, DockTab::Outer(Tab::File(a)));
    dispatch_tab_cycle(&mut app, true);
    assert_eq!(hxy::session::active_file_id(&mut app), Some(b));
}

#[test]
fn the_toolbar_offers_what_is_possible() {
    let kinds = default_commands();
    assert_eq!(kinds.len(), 5);
    assert_eq!(kinds[0], CommandKind::OpenFile);
    let none = ToolbarCtx { active_file: None, effects: Vec::new() };
    assert!(draw(CommandKind::OpenFile, &none).enabled);
    assert!(!draw(CommandKind::BrowseArchive, &none).enabled);
    assert!(!draw(CommandKind::Undo, &none).enabled);
    let mut some = ToolbarCtx {
        active_file: Some(ActiveFile {
            has_handler: true,
            suggested_template: Some(SuggestedTemplate {
                display_name: "zip".to_owned(),
                path: "/zip.bt".to_owned(),
            }),
            can_undo: true,
            can_redo: false,
        }),
        effects: Vec::new(),
    };
    assert!(draw(CommandKind::BrowseArchive, &some).enabled);
    assert!(draw(CommandKind::Undo, &some).enabled);
    assert!(!draw(CommandKind::Redo, &some).enabled);
    click(CommandKind::RunTemplate, &mut some);
    assert!(matches!(&some.effects[0], CommandEffect::RunTemplateDirect(p) if p == "/zip.bt"));
}

#[test]
fn the_menu_follows_the_active_file() {
    let mut app = start();
    let state = sync_native_menu_state(&mut app);
    assert!(!state.file_open && !state.can_save);
    assert_eq!(edit_mode_label(state), "menu-edit-enter-edit-mode");
    open_disk(&mut app, "x.bin", &[1, 2, 3]);
    app.files[0].editor.selection = Some(Selection { anchor: 0, cursor: 1 });
    drain_native_menu(&mut app, MenuAction::ToggleEditMode);
    let state = sync_native_menu_state(&mut app);
    assert!(state.file_open && state.can_save && state.scalar_selection && state.can_paste);
    assert!(!state.can_undo);
    assert_eq!(edit_mode_label(state), "menu-edit-leave-edit-mode");
    assert!(matches!(
        drain_native_menu(&mut app, MenuAction::Save),
        MenuEffect::Save { plan: SavePlan::WriteTo { .. }, .. }
    ));
    assert!(matches!(
        drain_native_menu(&mut app, MenuAction::SaveAs),
        MenuEffect::Save { plan: SavePlan::Ask { .. }, .. }
    ));
    assert!(matches!(
        drain_native_menu(&mut app, MenuAction::CopyHex),
        MenuEffect::Done(Effect::Copy(_))
    ));
    drain_native_menu(&mut app, MenuAction::CloseTab);
    assert!(app.files.is_empty());
}

#[test]
fn keys_have_an_order() {
    let mut app = start();
    open_disk(&mut app, "x.bin", &[1, 2]);
    assert!(app.files[0].editor.splice(0, 1, vec![9]));
    let none = SaveKeys {
        new_file: false,
        save_as: false,
        save: false,
        toggle_edit_mode: false,
        redo: false,
        undo: false,
    };
    let done = dispatch_save_shortcut(&mut app, SaveKeys { save_as: true, save: true, ..none });
    assert!(matches!(done.saved, Some((_, SavePlan::Ask { .. }))));
    dispatch_save_shortcut(&mut app, SaveKeys { undo: true, ..none });
    assert_eq!(app.files[0].editor.bytes, vec![1, 2]);
    // The step forward wins over the step back.
    dispatch_save_shortcut(&mut app, SaveKeys { undo: true, redo: true, ..none });
    assert_eq!(app.files[0].editor.bytes, vec![9, 2]);
    let done = dispatch_save_shortcut(&mut app, SaveKeys { new_file: true, ..none });
    assert!(done.made.is_some() && done.saved.is_none());
    assert_eq!(copy_key(true, true), Some(CopyKind::BytesHexSpaced));
    assert_eq!(copy_key(false, true), Some(CopyKind::BytesLossyUtf8));
    assert_eq!(copy_key(false, false), None);
    assert!(matches!(dispatch_copy_shortcut(&mut app, true, true, true), Effect::Nothing));
}

#[test]
fn the_paste_keys_ask_for_text() {
    let mut app = start();
    let id = open_disk(&mut app, "x.bin", &[1, 2]);
    let text = || Some("ab".to_owned());
    // A file that cannot be edited takes nothing.
    assert!(matches!(dispatch_paste_shortcut(&mut app, false, true, false, text()), PasteStep::Nothing));
    let place = find_file(&app.files, id).unwrap();
    app.files[place].editor.edit_mode = EditMode::Mutable;
    assert!(matches!(dispatch_paste_shortcut(&mut app, true, true, true, text()), PasteStep::Nothing));
    assert!(matches!(dispatch_paste_shortcut(&mut app, false, false, false, text()), PasteStep::Nothing));
    match dispatch_paste_shortcut(&mut app, false, true, true, text()) {
        PasteStep::Text { as_hex, text } => {
            assert!(as_hex);
            assert_eq!(text, "ab");
        }
        _ => panic!("the text came with the key"),
    }
    let empty = Some(String::new());
    assert!(matches!(
        dispatch_paste_shortcut(&mut app, false, true, false, empty),
        PasteStep::ReadClipboard { as_hex: false }
    ));
    assert!(matches!(
        dispatch_paste_shortcut(&mut app, false, false, true, None),
        PasteStep::ReadClipboard { as_hex: true }
    ));
}

#[test]
fn the_search_keys_open_their_panels() {
    let mut app = start();
    open_disk(&mut app, "x.bin", &[1, 2, 1]);
    assert!(dispatch_find_shortcut(&mut app, false, true, None).is_none());
    assert!(app.files[0].search.open);
    let split = dispatch_find_shortcut(&mut app, true, true, None).unwrap();
    assert_eq!((split.dir, split.keep_percent), (DockDir::Down, 65));
    assert!(app.global_search.open);
    apply_global_search_event(&mut app, GlobalSearchEvent::Run { pattern: Some(vec![1]) });
    assert_eq!(app.global_search.matches.len(), 2);
    apply_global_search_event(&mut app, GlobalSearchEvent::JumpTo(1));
    assert_eq!(app.global_search.active_idx, Some(1));
    assert!(!take_rescan(&mut app));
}

#[test]
fn panels_are_seen_by_the_palette() {
    let mut app = start();
    assert_eq!(
        panel_flags(&app),
        PanelFlags {
            console: false,
            inspector: false,
            plugins: false,
            workspace_tree: false,
            tool_panel: false
        }
    );
    let split = app.show_inspector().unwrap();
    app.dock.state.main_surface_mut().split_right(egui_dock::NodeIndex::root(), 0.72, split.tabs);
    let flags = panel_flags(&app);
    assert!(flags.inspector && !flags.tool_panel);
    app.dock.push_to_focused_leaf(DockTab::Outer(Tab::Plugins));
    let flags = panel_flags(&app);
    assert!(flags.plugins && flags.tool_panel);
}

#[test]
fn the_status_bar_shows_the_selection() {
    let bar = status_bar(
        TabFocus::Outer,
        Some(16),
        Some(Selection { anchor: 2, cursor: 5 }),
        32,
        None,
        EditMode::Readonly,
        OffsetBase::Hex,
    );
    assert_eq!(bar.hover.display, "Hover: 0x10");
    assert_eq!(bar.hover.tooltip.as_deref(), Some("16"));
    assert_eq!(bar.selection.display, "Sel: 0x2-0x5 (0x4 bytes)");
    assert_eq!(bar.length.display, "Length: 0x20");
    assert_eq!(bar.lock_icon, Icon::Lock);
    assert_eq!(bar.lock_click, Some(EditMode::Mutable));
    let hard = status_bar(
        TabFocus::Outer,
        None,
        Some(Selection::caret(3)),
        32,
        Some("status-reason"),
        EditMode::Readonly,
        OffsetBase::Decimal,
    );
    assert_eq!(hard.selection.display, "Caret: 3");
    assert_eq!(hard.lock_click, None);
}

#[test]
fn bytes_are_tinted() {
    let modified = vec![(2u64, 4u64), (6, 7)];
    assert!(range_contains(&modified, 3) && !range_contains(&modified, 4));
    assert_eq!(
        byte_tint(&modified, None, ByteHighlightMode::Text, 2),
        ByteTint::ModifiedBackground
    );
    let fields = vec![(0u64, 4u64), (4, 2)];
    assert_eq!(
        byte_tint(&modified, Some(&fields), ByteHighlightMode::Text, 4),
        ByteTint::FieldText(1)
    );
    assert_eq!(byte_tint(&modified, Some(&fields), ByteHighlightMode::Text, 9), ByteTint::Plain);
    assert_eq!(build_palette(true, ByteHighlightScheme::Class, None), None);
    assert_eq!(
        build_palette(false, ByteHighlightScheme::Value, Some(ByteHighlightMode::Text)),
        Some(PaletteChoice::Value { dark: false, mode: ByteHighlightMode::Text })
    );
    let plan = hex_body_plan(&settings(), true, Some(8), Some(Selection::caret(1)), None, &modified);
    assert_eq!(plan.columns, 8);
    assert!(plan.can_copy && plan.offers_values);
    assert_eq!(plan.address_separator, Some('_'));
}

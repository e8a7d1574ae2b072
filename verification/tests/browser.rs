use hxy::commands::DockDir;
use hxy::dock_ops::{focus_tab, TOOL_PANE_KEEP};
use hxy::editor::Selection;
use hxy::moves::all_tabs;
use hxy::palette::{Action, ColumnScope, CompareSide, DismissReason, Mode, Outcome, PaletteCommand};
use hxy::palette_rows::{Number, OffsetContext, TypedArgument};
use hxy::session::HxyApp;
use hxy::settings::{AppSettings, AutoReload, ByteHighlightMode, ByteHighlightScheme, OffsetBase};
use hxy::source::TabSource;
use hxy::tabs::{DockTab, FileId, Tab, WorkspaceTab};
use hxy::labels::Label;
use hxy::web::{active_file_bytes_wasm, close_file_tab_wasm, copy_active_selection_wasm,
    drain_open_requests_wasm, drain_panel_run, dropped_name, finish_browse_wasm,
    inspector_window_wasm, jump_to_offset_wasm, memory_path, note_drawn_wasm, open_vfs_entry_wasm,
    push_open_request_wasm, read_compare_side_wasm, reopen_last_closed_wasm, toggle_tab_wasm,
    tool_range, web_context, ClosedTabs, ToolRun, CLOSED_TABS_CAPACITY};
use hxy::web_dispatch::{apply_wasm_palette_outcome, on_web_close, web_closeable,
    web_inner_closeable, web_inner_title, web_palette_key, web_title, WebEffect};
use hxy::web_rows::{build_wasm_palette_entries, main_query, MainQuery};

fn settings() -> AppSettings {
    AppSettings {
        offset_base: OffsetBase::Hex,
        hex_columns: 16,
        byte_value_highlight: true,
        byte_highlight_mode: ByteHighlightMode::Background,
        byte_highlight_scheme: ByteHighlightScheme::Class,
        show_minimap: true,
        minimap_colored: false,
        address_separator_enabled: true,
        address_separator_char: '_',
        check_for_updates: false,
        palette_escape_pops_to_parent: true,
        vim_keys: false,
        auto_reload: AutoReload::Ask,
        watch_prefs: Vec::new(),
        recent_files: Vec::new(),
    }
}

fn start() -> HxyApp {
    HxyApp::new_wasm(settings())
}

fn open(app: &mut HxyApp, name: &str, bytes: &[u8]) -> FileId {
    app.open_bytes_wasm(name.to_owned(), bytes.to_vec(), None)
}

fn pick(app: &mut HxyApp, action: Action) -> WebEffect {
    apply_wasm_palette_outcome(app, Outcome::Picked(action))
}

fn outer(tab: Tab) -> DockTab {
    DockTab::Outer(tab)
}

#[test]
fn opened_bytes_replace_the_welcome_page() {
    let mut app = start();
    assert_eq!(all_tabs(&app.dock), vec![outer(Tab::Welcome)]);
    let id = open(&mut app, "a", &[1, 2]);
    assert_eq!(all_tabs(&app.dock), vec![outer(Tab::File(id))]);
    assert_eq!(app.last_active_file, Some(id));
    assert_eq!(active_file_bytes_wasm(&app), Some(("a".to_owned(), vec![1, 2])));
}

#[test]
fn a_closed_tab_comes_back_as_it_was() {
    let mut app = start();
    let mut kept = ClosedTabs::new();
    let id = open(&mut app, "a", &[1, 2, 3]);
    open(&mut app, "b", &[4]);
    app.files[0].editor.selection = Some(Selection { anchor: 0, cursor: 1 });
    app.files[0].scroll = 77;
    close_file_tab_wasm(&mut app, &mut kept, id);
    assert_eq!(app.files.len(), 1);
    assert_eq!(kept.tabs.len(), 1);
    close_file_tab_wasm(&mut app, &mut kept, id);
    assert_eq!(kept.tabs.len(), 1);
    reopen_last_closed_wasm(&mut app, &mut kept, None);
    let file = app.files.last().unwrap();
    assert_eq!(file.display_name, "a");
    assert_eq!(file.editor.bytes, vec![1, 2, 3]);
    assert_eq!(file.editor.selection, Some(Selection { anchor: 0, cursor: 1 }));
    assert_eq!(file.scroll, 77);
    assert_ne!(file.id, id);
    assert!(kept.tabs.is_empty());
    reopen_last_closed_wasm(&mut app, &mut kept, None);
    assert_eq!(app.files.len(), 2);
}

#[test]
fn only_so_many_closed_tabs_are_kept() {
    let mut app = start();
    let mut kept = ClosedTabs::new();
    for n in 0..CLOSED_TABS_CAPACITY + 2 {
        let id = open(&mut app, &n.to_string(), &[]);
        close_file_tab_wasm(&mut app, &mut kept, id);
    }
    assert_eq!(kept.tabs.len(), CLOSED_TABS_CAPACITY);
    assert_eq!(kept.tabs[0].name, "2");
    assert_eq!(app.last_active_file, None);
}

#[test]
fn what_is_selected_is_copied() {
    let mut app = start();
    open(&mut app, "a", &[0x41, 0xFF, 0x42, 0x0A]);
    assert_eq!(copy_active_selection_wasm(&app, true), None);
    app.files[0].editor.selection = Some(Selection { anchor: 0, cursor: 2 });
    assert_eq!(copy_active_selection_wasm(&app, true).as_deref(), Some("41 FF 42"));
    assert_eq!(copy_active_selection_wasm(&app, false).as_deref(), Some("A\u{FFFD}B"));
    app.files[0].editor.selection = Some(Selection { anchor: 3, cursor: 3 });
    assert_eq!(copy_active_selection_wasm(&app, true).as_deref(), Some("0A"));
    app.files[0].editor.selection = Some(Selection { anchor: 3, cursor: 9 });
    assert_eq!(copy_active_selection_wasm(&app, true), None);
}

#[test]
fn tabs_are_shown_once() {
    let mut app = start();
    let id = open(&mut app, "a", &[1]);
    let split = toggle_tab_wasm(&mut app, Tab::Strings(id)).unwrap();
    app.dock.state.main_surface_mut().split_right(egui_dock::NodeIndex::root(), 0.72, split.tabs);
    assert!(toggle_tab_wasm(&mut app, Tab::Strings(id)).is_none());
    assert!(toggle_tab_wasm(&mut app, Tab::Inspector).is_none());
    assert_eq!(app.dock.find_tab(&outer(Tab::Inspector)).unwrap().node, 2);
    focus_tab(&mut app.dock, outer(Tab::File(id)));
    assert!(toggle_tab_wasm(&mut app, Tab::Settings).is_none());
    assert_eq!(app.dock.find_tab(&outer(Tab::Settings)).unwrap().node, 1);
}

#[test]
fn tools_run_on_a_range_or_on_all() {
    assert_eq!(tool_range((0, 0), 10), (0, 10));
    assert_eq!(tool_range((3, 5), 10), (3, 5));
    let mut run = ToolRun { running: true, result: Some(1) };
    drain_panel_run(&mut run, Vec::new());
    assert!(run.running);
    drain_panel_run(&mut run, vec![Ok(2), Err("x".to_owned())]);
    assert!(!run.running);
    assert_eq!(run.result, Some(2));
    run.running = true;
    drain_panel_run(&mut run, vec![Err("x".to_owned())]);
    assert_eq!(run.result, Some(2));
}

#[test]
fn files_in_memory_are_compared() {
    let mut app = start();
    let a = open(&mut app, "a", &[1]);
    let b = open(&mut app, "b", &[2]);
    assert_eq!(memory_path(a), "/__memory__/1");
    let side = |id| TabSource::Filesystem(memory_path(id));
    assert_eq!(read_compare_side_wasm(&app, &side(b)), Some(("b".to_owned(), vec![2])));
    assert!(read_compare_side_wasm(&app, &side(FileId(9))).is_none());
    assert!(read_compare_side_wasm(&app, &TabSource::Filesystem("/d/x".to_owned())).is_none());
    pick(&mut app, Action::CompareSelectSource { side: CompareSide::A, source: side(a) });
    assert_eq!(app.palette.mode, Mode::CompareSideB);
    match pick(&mut app, Action::CompareSelectSource { side: CompareSide::B, source: side(b) }) {
        WebEffect::Compare(c) => {
            assert_eq!(c.first.name, "a");
            assert_eq!(c.second.bytes, vec![2]);
            assert_eq!(app.next_compare_id, 2);
            assert!(app.dock.find_tab(&outer(Tab::Compare(c.id))).is_some());
        }
        _ => panic!("nothing was compared"),
    }
    assert!(!app.palette.open);
}

#[test]
fn an_archive_is_browsed() {
    let mut app = start();
    let id = app.open_bytes_wasm("a.zip".to_owned(), vec![0x50], Some("zip".to_owned()));
    assert!(matches!(
        pick(&mut app, Action::InvokeCommand(PaletteCommand::BrowseArchive)),
        WebEffect::Browse(f) if f == id
    ));
    assert!(finish_browse_wasm(&mut app, id, None).is_none());
    let (w, _) = finish_browse_wasm(&mut app, id, Some(false)).unwrap();
    assert_eq!(all_tabs(&app.dock), vec![outer(Tab::Workspace(w))]);
    open_vfs_entry_wasm(&mut app, w, &"dir/e.txt".to_owned(), Some(vec![7]));
    assert_eq!(app.files[1].display_name, "e.txt");
    let entry = app.files[1].id;
    assert!(app.workspaces[0].dock.find_tab(&DockTab::Inner(WorkspaceTab::Entry(entry))).is_some());
    open_vfs_entry_wasm(&mut app, w, &"x".to_owned(), None);
    assert_eq!(app.files.len(), 2);
}

#[test]
fn a_found_place_is_selected() {
    let mut app = start();
    let id = open(&mut app, "a", &[0; 20]);
    assert_eq!(jump_to_offset_wasm(&mut app, id, 4, 8), Some(4));
    assert_eq!(app.files[0].editor.selection, Some(Selection { anchor: 4, cursor: 7 }));
    assert_eq!(jump_to_offset_wasm(&mut app, id, 40, 80), Some(19));
    let empty = open(&mut app, "e", &[]);
    assert_eq!(jump_to_offset_wasm(&mut app, empty, 0, 1), None);
    assert_eq!(inspector_window_wasm(&app.files[0]), Some((19, vec![0])));
    app.files[0].editor.selection = Some(Selection::caret(2));
    assert_eq!(inspector_window_wasm(&app.files[0]).unwrap().1.len(), 16);
    app.files[0].editor.selection = Some(Selection::caret(20));
    assert_eq!(inspector_window_wasm(&app.files[0]), Some((20, Vec::new())));
    app.files[0].editor.selection = Some(Selection::caret(21));
    assert_eq!(inspector_window_wasm(&app.files[0]), None);
    assert_eq!(inspector_window_wasm(&app.files[1]), None);
}

#[test]
fn files_wait_in_a_queue() {
    let mut queue = Vec::new();
    push_open_request_wasm(&mut queue, "a".to_owned(), vec![1]);
    push_open_request_wasm(&mut queue, "b".to_owned(), vec![]);
    let taken = drain_open_requests_wasm(&mut queue);
    assert_eq!(taken, vec![("a".to_owned(), vec![1]), ("b".to_owned(), vec![])]);
    assert!(queue.is_empty());
    assert_eq!(dropped_name(String::new()), "dropped");
    assert_eq!(dropped_name("f".to_owned()), "f");
}

#[test]
fn picks_act_on_the_file_that_was_last_focused() {
    let mut app = start();
    let id = open(&mut app, "a", &[1, 2, 3, 4]);
    assert!(matches!(pick(&mut app, Action::GoToOffset(9)), WebEffect::Reveal(3)));
    assert!(matches!(
        pick(&mut app, Action::SetSelection { start: 1, end_exclusive: 3 }),
        WebEffect::Reveal(1)
    ));
    assert_eq!(app.files[0].editor.selection, Some(Selection { anchor: 1, cursor: 2 }));
    assert!(matches!(
        pick(&mut app, Action::SetSelection { start: 3, end_exclusive: 3 }),
        WebEffect::Nothing
    ));
    match pick(&mut app, Action::InvokeCommand(PaletteCommand::FindStringsSelection)) {
        WebEffect::StringsIn { file_id, part, split } => {
            assert_eq!(file_id, id);
            assert_eq!((part.start(), part.end()), (1, 3));
            assert!(split.is_some());
        }
        _ => panic!("no strings are looked for"),
    }
    pick(&mut app, Action::SetColumns { scope: ColumnScope::Local, count: 4 });
    assert_eq!(app.files[0].columns_override, Some(4));
    match pick(&mut app, Action::InvokeCommand(PaletteCommand::CopyCaretOffset)) {
        WebEffect::CopyText(t) => assert_eq!(t, "0x2"),
        _ => panic!("nothing was copied"),
    }
    pick(&mut app, Action::SetVirtualBase(Some(0x1000)));
    assert!(matches!(
        pick(&mut app, Action::InvokeCommand(PaletteCommand::CopyCaretAddress)),
        WebEffect::CopyAddress { offset: 2, base: 0x1000 }
    ));
    assert!(matches!(
        pick(&mut app, Action::InvokeCommand(PaletteCommand::SaveAsDownload)),
        WebEffect::Download { .. }
    ));
    pick(&mut app, Action::InvokeCommand(PaletteCommand::NewFile));
    assert_eq!(app.files[1].display_name, "Untitled");
    pick(&mut app, Action::FocusFile(id));
    assert_eq!(app.last_active_file, Some(id));
    assert!(matches!(
        pick(&mut app, Action::InvokeCommand(PaletteCommand::TogglePlugins)),
        WebEffect::Nothing
    ));
}

#[test]
fn the_palette_is_opened_and_left() {
    let mut app = start();
    web_palette_key(&mut app, Mode::QuickOpen);
    assert!(app.palette.open && app.palette.mode == Mode::QuickOpen);
    web_palette_key(&mut app, Mode::Main);
    assert!(!app.palette.open);
    pick(&mut app, Action::SwitchMode(Mode::GoToOffset));
    assert!(app.palette.open);
    apply_wasm_palette_outcome(&mut app, Outcome::Dismissed(DismissReason::Key));
    assert!(!app.palette.open);
}

fn typed() -> TypedArgument {
    TypedArgument { number: Ok(Number::Absolute(3)), target: Ok(3), range: Ok((0, 3)) }
}

fn at(available: bool) -> OffsetContext {
    OffsetContext { cursor: 0, source_len: 4, available, selection: None, virtual_base: None }
}

#[test]
fn the_list_follows_the_context() {
    let mut app = start();
    let kept = ClosedTabs::new();
    let rows = |app: &HxyApp, mode, query: &str| {
        build_wasm_palette_entries(
            mode,
            query,
            web_context(app, &kept),
            at(true),
            &app.files,
            &typed(),
            Vec::new(),
        )
    };
    let bare = rows(&app, Mode::Main, "");
    let find = |list: &Vec<hxy::palette::Entry>, c| {
        list.iter()
            .find(|r| matches!(&r.action, Action::InvokeCommand(x) if *x == c))
            .map(|r| r.disabled)
    };
    assert_eq!(find(&bare, PaletteCommand::SaveAsDownload), Some(true));
    assert_eq!(find(&bare, PaletteCommand::ReopenClosedTab), Some(true));
    assert_eq!(find(&bare, PaletteCommand::CopySelectionRange), None);
    assert_eq!(find(&bare, PaletteCommand::CompareFiles), Some(true));
    open(&mut app, "a", &[1, 2]);
    app.files[0].editor.selection = Some(Selection { anchor: 0, cursor: 1 });
    app.files[0].virtual_base = Some(0xAB);
    let full = rows(&app, Mode::Main, " ");
    assert_eq!(find(&full, PaletteCommand::SaveAsDownload), Some(false));
    assert_eq!(find(&full, PaletteCommand::CopySelectionRange), Some(false));
    assert!(full.iter().any(|r| matches!(r.action, Action::SwitchMode(Mode::GoToAddress))));
    let base = full
        .iter()
        .find(|r| matches!(r.action, Action::SwitchMode(Mode::SetVirtualBase)))
        .unwrap();
    assert!(matches!(&base.label, Label::Args(_, args) if args[0].1 == "0xAB"));
    assert!(rows(&app, Mode::Main, " @4").is_empty());
    let quick = rows(&app, Mode::QuickOpen, "");
    assert!(matches!(quick[0].action, Action::FocusFile(FileId(1))));
    assert!(matches!(rows(&app, Mode::GoToOffset, "3")[0].action, Action::GoToOffset(3)));
    assert!(rows(&app, Mode::Templates, "").is_empty());
}

#[test]
fn expressions_are_told_from_text() {
    assert!(matches!(main_query("  @1+2"), MainQuery::Jump(s) if s == "1+2"));
    assert!(matches!(main_query("=7 "), MainQuery::Evaluate(s) if s == "7 "));
    assert!(matches!(main_query("open @"), MainQuery::List));
    assert!(matches!(main_query(""), MainQuery::List));
}

#[test]
fn tabs_are_titled_and_closed() {
    let mut app = start();
    let id = open(&mut app, "a", &[1]);
    assert!(web_closeable(Tab::File(id)) && !web_closeable(Tab::Settings));
    assert!(web_inner_closeable(WorkspaceTab::VfsTree) && !web_inner_closeable(WorkspaceTab::Editor));
    assert_eq!(on_web_close(outer(Tab::File(id))), Some(id));
    assert_eq!(on_web_close(outer(Tab::Settings)), None);
    let gone = web_title(&app, Tab::Strings(FileId(9)), None);
    assert!(matches!(&gone.label, Label::Args("tab-strings", a) if a[0].1 == "(missing)"));
    let there = web_title(&app, Tab::Strings(id), None);
    assert!(matches!(&there.label, Label::Args("tab-strings", a) if a[0].1 == "a"));
    assert!(matches!(web_inner_title(&app, id, WorkspaceTab::Editor).label, Label::Text(t) if t == "a"));
    assert!(matches!(
        web_inner_title(&app, id, WorkspaceTab::Entry(FileId(5))).label,
        Label::Text(t) if t == "entry-5"
    ));
}

#[test]
fn the_console_shares_the_pane_of_tools() {
    let mut app = start();
    let id = open(&mut app, "a", &[1]);
    let split = toggle_tab_wasm(&mut app, Tab::Console).unwrap();
    assert_eq!((split.dir, split.keep_percent), (DockDir::Right, TOOL_PANE_KEEP));
    assert_eq!(split.tabs, vec![outer(Tab::Console)]);
    app.dock.state.main_surface_mut().split_right(egui_dock::NodeIndex::root(), 0.72, split.tabs);
    assert!(toggle_tab_wasm(&mut app, Tab::Inspector).is_none());
    let pane = app.dock.find_tab(&outer(Tab::Console)).unwrap().node_pos();
    assert_eq!(app.dock.leaf(pane).unwrap().0, vec![outer(Tab::Console), outer(Tab::Inspector)]);
    assert_eq!(all_tabs(&app.dock)[0], outer(Tab::File(id)));
}

#[test]
fn a_drawn_file_is_the_last_one() {
    let mut app = start();
    let first = open(&mut app, "a", &[1]);
    let second = open(&mut app, "b", &[2]);
    assert_eq!(app.last_active_file, Some(second));
    note_drawn_wasm(&mut app, Tab::File(first));
    assert_eq!(app.last_active_file, Some(first));
    note_drawn_wasm(&mut app, Tab::Settings);
    note_drawn_wasm(&mut app, Tab::File(FileId(99)));
    assert_eq!(app.last_active_file, Some(first));
}

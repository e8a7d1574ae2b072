use egui_dock::NodeIndex;
use hxy::active::{choose_columns, copy_active_file, go_to_offset, history_palette_context,
    inspect_active, offset_palette_context, paste_active_file, set_selection,
    template_palette_context, toggle_active_edit_mode, toggle_active_search, undo_active_file};
use hxy::closing::{answer_close, close_file_tab_by_id, close_workspace_by_id, closed_scratches,
    collapse_workspace_to_file, open_scratches, finish_close, on_close, on_close_inside, request_close_active_tab,
    CloseTabAction};
use hxy::copy::{CopyKind, CopyRequest};
use hxy::dock_ops::focus_tab;
use hxy::editor::{EditMode, Selection};
use hxy::frame::{after_dock, edits_to_keep, scratches_to_keep, sync_tab_state, ExitStep};
use hxy::mounting::{finish_mount, finish_vfs_open, install_mount_tab, mount_active_file,
    plan_vfs_open, MountPlan, PendingVfsOpen};
use hxy::moves::all_tabs;
use hxy::newfile::{free_title_number, handle_new_file, smallest_free};
use hxy::opening::{FileFacts, OpenRequest};
use hxy::palette::ColumnScope;
use hxy::restoring::{apply_persisted_dock_layout, finish_loading, finish_restore, opens_as_workspace,
    restore_one_tab, restore_order, FileOpenError, KeptLayout, PluginAnswer, ReadResult, Restored,
    RestoreInput};
use hxy::session::{active_file_id, focus_file_tab, HxyApp, LoadStatus};
use hxy::settings::{AppSettings, AutoReload, ByteHighlightMode, ByteHighlightScheme, OffsetBase};
use hxy::source::{find_tab_state, record_tab, OpenTabState, TabSource};
use hxy::tabs::{DockTab, FileId, Tab, TabFocus, WorkspaceId, WorkspaceTab};
use hxy::viewer::{closeable, drop_overlay_text, inner_title, title};
use hxy::dock::Dock;
use hxy::labels::{Icon, Label};

fn settings() -> AppSettings {
    AppSettings {
        offset_base: OffsetBase::Hex,
        hex_columns: 16,
        byte_value_highlight: true,
        byte_highlight_mode: ByteHighlightMode::Background,
        byte_highlight_scheme: ByteHighlightScheme::Class,
        show_minimap: true,
        minimap_colored: false,
        address_separator_enabled: true,
        address_separator_char: '_',
        check_for_updates: false,
        palette_escape_pops_to_parent: true,
        vim_keys: false,
        auto_reload: AutoReload::Ask,
        watch_prefs: Vec::new(),
        recent_files: Vec::new(),
    }
}

fn start() -> HxyApp {
    HxyApp::new(settings(), Vec::new(), true, false)
}

fn facts() -> FileFacts {
    FileFacts { handler: None, suggested_template: None, parent_dir: Some("/d".to_owned()) }
}

fn open_disk(app: &mut HxyApp, name: &str, bytes: &[u8]) -> FileId {
    app.open_filesystem(name.to_owned(), format!("/d/{name}"), bytes.to_vec(), None, None, facts())
}

/// Opens an archive and mounts it as a workspace.
fn open_archive(app: &mut HxyApp) -> (FileId, WorkspaceId) {
    let mut known = facts();
    known.handler = Some("zip".to_owned());
    let id = app.open_filesystem(
        "a.zip".to_owned(),
        "/d/a.zip".to_owned(),
        vec![0x50, 0x4B],
        None,
        None,
        known,
    );
    focus_file_tab(app, id);
    match mount_active_file(app) {
        MountPlan::Mount { file_id, handler } => {
            assert_eq!((file_id, handler.as_str()), (id, "zip"));
        }
        _ => panic!("the archive is not mounted"),
    }
    let (workspace, split) = finish_mount(app, id, true);
    let w = app.workspaces.iter().position(|w| w.id == workspace).unwrap();
    app.workspaces[w].dock.state.main_surface_mut().split_left(NodeIndex::root(), 0.3, split.tabs);
    (id, workspace)
}

fn open_entry(app: &mut HxyApp, workspace_id: WorkspaceId, path: &str, bytes: &[u8]) -> FileId {
    let plan = plan_vfs_open(
        app,
        &PendingVfsOpen::Workspace { workspace_id, entry_path: path.to_owned() },
    )
    .unwrap();
    finish_vfs_open(app, plan, bytes.to_vec(), None)
}

fn outer(tab: Tab) -> DockTab {
    DockTab::Outer(tab)
}

#[test]
fn it_starts_with_the_welcome_page_and_the_settings() {
    let app = start();
    assert_eq!(all_tabs(&app.dock), vec![outer(Tab::Welcome), outer(Tab::Settings)]);
    assert!(!app.patterns_prompt);
    assert!(HxyApp::new(settings(), Vec::new(), false, false).patterns_prompt);
    assert!(!HxyApp::new(settings(), Vec::new(), false, true).patterns_prompt);
}

#[test]
fn an_opened_file_takes_the_place_of_the_welcome_page() {
    let mut app = start();
    let id = open_disk(&mut app, "x.bin", &[1, 2, 3]);
    assert_eq!(id, FileId(1));
    assert_eq!(all_tabs(&app.dock), vec![outer(Tab::Settings), outer(Tab::File(id))]);
    assert_eq!(active_file_id(&mut app), Some(id));
    assert_eq!(app.files[0].editor.bytes, vec![1, 2, 3]);
    assert_eq!(app.files[0].editor.edit_mode, EditMode::Readonly);
    assert_eq!(app.open_tabs.len(), 1);
    assert_eq!(app.settings.recent_files[0].path, "/d/x.bin");
    let second = open_disk(&mut app, "y.bin", &[]);
    assert_eq!(second, FileId(2));
    assert_eq!(app.settings.recent_files[0].path, "/d/y.bin");
    assert_eq!(app.settings.recent_files.len(), 2);
}

#[test]
fn a_file_is_not_opened_twice_without_asking() {
    let mut app = start();
    let id = open_disk(&mut app, "x.bin", &[1]);
    assert!(!app.request_open_filesystem("x.bin".to_owned(), "/d/x.bin".to_owned()));
    let pending = app.pending_duplicate.as_ref().unwrap();
    assert_eq!(pending.existing, id);
    assert!(app.request_open_filesystem("z.bin".to_owned(), "/d/z.bin".to_owned()));
}

#[test]
fn a_file_in_memory_is_not_remembered() {
    let mut app = start();
    let id = app.open_in_memory("scrap".to_owned(), vec![9]);
    assert_eq!(app.files[0].id, id);
    assert!(app.open_tabs.is_empty());
    assert!(app.settings.recent_files.is_empty());
}

#[test]
fn a_clean_file_closes_and_a_dirty_one_asks() {
    let mut app = start();
    let id = open_disk(&mut app, "x.bin", &[1, 2, 3]);
    focus_file_tab(&mut app, id);
    toggle_active_edit_mode(&mut app);
    app.files[0].editor.selection = Some(Selection::caret(0));
    assert!(paste_active_file(&mut app, Ok(vec![7])).is_none());
    assert_eq!(app.files[0].editor.bytes, vec![7, 2, 3]);
    request_close_active_tab(&mut app);
    assert_eq!(app.pending_close_tab.as_ref().unwrap().file_id, id);
    assert_eq!(app.files.len(), 1);
    assert!(answer_close(&mut app, CloseTabAction::Cancel).is_none());
    assert!(app.pending_close_tab.is_none());
    request_close_active_tab(&mut app);
    assert_eq!(answer_close(&mut app, CloseTabAction::Save), Some(id));
    finish_close(&mut app, id, true);
    assert!(app.files.is_empty());
    assert!(app.open_tabs.is_empty());
    let other = open_disk(&mut app, "y.bin", &[1]);
    focus_file_tab(&mut app, other);
    request_close_active_tab(&mut app);
    assert!(app.files.is_empty());
}

#[test]
fn a_dirty_file_is_discarded_on_request() {
    let mut app = start();
    let id = open_disk(&mut app, "x.bin", &[1]);
    assert!(app.files[0].editor.splice(0, 1, vec![2]));
    assert!(!on_close(&mut app, Tab::File(id)));
    assert!(app.pending_close_tab.is_some());
    assert!(answer_close(&mut app, CloseTabAction::Discard).is_none());
    assert!(app.files.is_empty());
    assert!(app.dock.find_tab(&outer(Tab::File(id))).is_none());
}

#[test]
fn hex_that_cannot_be_read_is_told() {
    let mut app = start();
    let id = open_disk(&mut app, "x.bin", &[1]);
    focus_file_tab(&mut app, id);
    toggle_active_edit_mode(&mut app);
    paste_active_file(&mut app, Err("odd digits".to_owned()));
    let last = app.console.last().unwrap();
    assert_eq!(last.context, "Paste as hex");
    assert_eq!(last.message, "clipboard text is not valid hex: odd digits");
    assert!(last.second > 1_600_000_000);
}

#[test]
fn a_locked_file_takes_no_paste() {
    let mut app = start();
    let id = open_disk(&mut app, "x.bin", &[1]);
    focus_file_tab(&mut app, id);
    paste_active_file(&mut app, Ok(vec![7]));
    assert_eq!(app.files[0].editor.bytes, vec![1]);
    toggle_active_edit_mode(&mut app);
    toggle_active_edit_mode(&mut app);
    assert_eq!(app.files[0].editor.edit_mode, EditMode::Readonly);
}

#[test]
fn the_caret_and_the_selection_stay_inside() {
    let mut app = start();
    let id = open_disk(&mut app, "x.bin", &[1, 2, 3, 4]);
    focus_file_tab(&mut app, id);
    assert_eq!(go_to_offset(&mut app, 100), Some(3));
    assert_eq!(app.files[0].editor.selection, Some(Selection::caret(3)));
    assert_eq!(set_selection(&mut app, 1, 3), Some(1));
    assert_eq!(app.files[0].editor.selection, Some(Selection { anchor: 1, cursor: 2 }));
    assert_eq!(set_selection(&mut app, 3, 3), None);
    match copy_active_file(&mut app, CopyKind::BytesHexSpaced) {
        Some(CopyRequest::Bytes { bytes, ident, type_hint, .. }) => {
            assert_eq!(bytes, vec![2, 3]);
            assert_eq!(ident, "data_1");
            assert_eq!(type_hint, "u8[2]");
        }
        _ => panic!("nothing was copied"),
    }
    match copy_active_file(&mut app, CopyKind::Value(0)) {
        Some(CopyRequest::Scalar { raw, .. }) => assert_eq!(raw, 0x0302),
        _ => panic!("no number was copied"),
    }
    let at = offset_palette_context(&mut app);
    assert_eq!((at.cursor, at.source_len, at.available), (2, 4, true));
    assert_eq!(inspect_active(&mut app), Some((2, vec![3, 4])));
    let h = history_palette_context(&mut app);
    assert!(h.has_active_file && !h.can_undo && !h.can_redo && !h.can_paste);
    let t = template_palette_context(&mut app, Some("BIN".to_owned()), 2);
    assert_eq!(t.extension.as_deref(), Some("bin"));
    assert_eq!(t.head, vec![1, 2]);
}

#[test]
fn any_number_of_columns_but_zero_is_taken() {
    let mut app = start();
    let id = open_disk(&mut app, "x.bin", &[1]);
    focus_file_tab(&mut app, id);
    choose_columns(&mut app, ColumnScope::Local, 8);
    assert_eq!(app.files[0].columns_override, Some(8));
    choose_columns(&mut app, ColumnScope::Global, 64);
    assert_eq!(app.settings.hex_columns, 64);
    choose_columns(&mut app, ColumnScope::Global, 65);
    assert_eq!(app.settings.hex_columns, 65);
    choose_columns(&mut app, ColumnScope::Global, 0);
    assert_eq!(app.settings.hex_columns, 65);
    choose_columns(&mut app, ColumnScope::Local, 300);
    assert_eq!(app.files[0].columns_override, Some(300));
}

#[test]
fn the_search_bar_follows_the_selection() {
    let mut app = start();
    let id = open_disk(&mut app, "x.bin", &[1, 2, 3, 4]);
    focus_file_tab(&mut app, id);
    set_selection(&mut app, 1, 3);
    toggle_active_search(&mut app, Some(vec![2]));
    assert!(app.files[0].search.open);
    assert_eq!(
        app.files[0].search.scope,
        hxy::search::SearchScope::Selection { start: 1, end_exclusive: 3 }
    );
    toggle_active_search(&mut app, None);
    assert!(!app.files[0].search.open);
    undo_active_file(&mut app);
}

#[test]
fn scratch_files_take_the_smallest_free_numbers() {
    let mut app = start();
    let (first, a) = handle_new_file(&mut app);
    let (second, b) = handle_new_file(&mut app);
    assert_eq!((a, b), (0, 1));
    assert_eq!(app.files[0].display_name, "Untitled");
    assert_eq!(app.files[1].display_name, "Untitled 2");
    assert_eq!(active_file_id(&mut app), Some(second));
    close_file_tab_by_id(&mut app, first);
    let (_, c) = handle_new_file(&mut app);
    assert_eq!(c, 0);
    assert_eq!(smallest_free(vec![0, 1, 3]), 2);
    assert_eq!(free_title_number(Vec::new()), 1);
    assert_eq!(scratches_to_keep(&app.files).len(), 2);
}

#[test]
fn an_archive_becomes_a_workspace() {
    let mut app = start();
    let (id, w) = open_archive(&mut app);
    assert!(app.dock.find_tab(&outer(Tab::Workspace(w))).is_some());
    assert!(app.dock.find_tab(&outer(Tab::File(id))).is_none());
    assert!(app.open_tabs[0].as_workspace);
    let entry = open_entry(&mut app, w, "dir/e.txt", b"hi");
    assert_eq!(app.files[1].display_name, "e.txt");
    assert!(app.workspaces[0].dock.find_tab(&DockTab::Inner(WorkspaceTab::Entry(entry))).is_some());
    assert_eq!(app.open_tabs.len(), 2);
    // The same entry is not opened again.
    assert!(plan_vfs_open(
        &app,
        &PendingVfsOpen::Workspace { workspace_id: WorkspaceId(99), entry_path: "x".to_owned() }
    )
    .is_none());
    assert!(on_close_inside(&mut app, WorkspaceTab::Entry(entry)));
    assert_eq!(app.files.len(), 1);
}

#[test]
fn a_workspace_with_edits_is_not_closed() {
    let mut app = start();
    let (_, w) = open_archive(&mut app);
    let entry = open_entry(&mut app, w, "e.txt", b"hi");
    assert!(app.files[1].editor.splice(0, 1, vec![b'H']));
    close_workspace_by_id(&mut app, w);
    assert_eq!(app.workspaces.len(), 1);
    assert_eq!(app.pending_close_tab.as_ref().unwrap().file_id, entry);
    app.pending_close_tab = None;
    app.files[1].editor.swap_source(b"hi".to_vec());
    close_workspace_by_id(&mut app, w);
    assert!(app.workspaces.is_empty() && app.files.is_empty() && app.open_tabs.is_empty());
}

#[test]
fn a_workspace_without_entries_collapses() {
    let mut app = start();
    let (id, w) = open_archive(&mut app);
    collapse_workspace_to_file(&mut app, w);
    assert!(app.workspaces.is_empty());
    assert!(app.dock.find_tab(&outer(Tab::File(id))).is_some());
    assert!(!app.open_tabs[0].as_workspace);
}

#[test]
fn a_dock_is_never_left_blank() {
    let mut app = start();
    let id = open_disk(&mut app, "x.bin", &[1]);
    close_file_tab_by_id(&mut app, id);
    hxy::dock_ops::close_tab(&mut app.dock, outer(Tab::Settings));
    assert!(all_tabs(&app.dock).is_empty());
    after_dock(&mut app);
    assert_eq!(all_tabs(&app.dock), vec![outer(Tab::Welcome)]);
}

#[test]
fn tabs_remember_where_they_were() {
    let mut app = start();
    let id = open_disk(&mut app, "x.bin", &[1, 2, 3]);
    app.files[0].editor.selection = Some(Selection::caret(2));
    app.files[0].scroll = 40;
    sync_tab_state(&mut app.open_tabs, &app.files[0]);
    assert_eq!(app.open_tabs[0].selection, Some(Selection::caret(2)));
    assert_eq!(app.open_tabs[0].scroll, 40);
    assert!(app.files[0].editor.splice(0, 1, vec![9]));
    assert!(matches!(&edits_to_keep(&app.files)[0], ExitStep::KeepEdits { file_id, path }
        if *file_id == id && path == "/d/x.bin"));
}

#[test]
fn remembered_tabs_are_kept_apart() {
    let mut tabs: Vec<OpenTabState> = Vec::new();
    let source = TabSource::Filesystem("/d/x".to_owned());
    let state = |s: &TabSource| OpenTabState {
        source: s.clone(),
        selection: None,
        scroll: 0,
        as_workspace: false,
        visualizer_open: false,
    };
    record_tab(&mut tabs, state(&source));
    record_tab(&mut tabs, state(&source));
    assert_eq!(tabs.len(), 1);
    let entry =
        TabSource::VfsEntry { parent: Box::new(source.clone()), entry_path: "e".to_owned() };
    record_tab(&mut tabs, state(&entry));
    assert_eq!(find_tab_state(&tabs, &entry), Some(1));
    assert_eq!(entry.depth(), 1);
    assert_eq!(entry.root_path().as_deref(), Some("/d/x"));
    // A mount comes before what lies in it, whatever the order.
    let mixed = vec![state(&entry), state(&source)];
    assert!(opens_as_workspace(&mixed[1], &mixed));
    let ordered = restore_order(mixed);
    assert!(ordered[0].source.same(&source));
    assert!(ordered[1].source.same(&entry));
}

fn restore_input(read: ReadResult) -> RestoreInput {
    RestoreInput {
        file_name: "x.bin".to_owned(),
        parent_dir: Some("/d".to_owned()),
        read,
        scratch_path: None,
        handler: None,
        mounted: None,
        plugin: PluginAnswer::NotInstalled,
    }
}

#[test]
fn a_tab_of_an_earlier_run_comes_back() {
    let mut app = start();
    let tab = OpenTabState {
        source: TabSource::Filesystem("/d/x.bin".to_owned()),
        selection: Some(Selection::caret(1)),
        scroll: 12,
        as_workspace: false,
        visualizer_open: false,
    };
    match restore_one_tab(&mut app, &tab, false, restore_input(ReadResult::Bytes(vec![1, 2]))) {
        Ok(Restored::Opened(done)) => assert_eq!(done.id, FileId(1)),
        _ => panic!("the tab did not come back"),
    }
    assert_eq!(app.files[0].editor.selection, Some(Selection::caret(1)));
    assert_eq!(app.files[0].scroll, 12);
    match restore_one_tab(&mut app, &tab, false, restore_input(ReadResult::Failed("no".to_owned()))) {
        Err(FileOpenError::Read { path, reason }) => {
            assert_eq!((path.as_str(), reason.as_str()), ("/d/x.bin", "no"))
        }
        _ => panic!("an unreadable file came back"),
    }
    finish_restore(&mut app, vec![tab], &vec![true]);
    assert_eq!(app.open_tabs.len(), 1);
}

#[test]
fn a_file_that_loads_gets_its_bytes() {
    let mut app = start();
    let id = app.open_in_memory("late".to_owned(), Vec::new());
    app.files[0].load = LoadStatus::Loading;
    finish_loading(&mut app, id, Ok(vec![5, 6]));
    assert_eq!(app.files[0].editor.bytes, vec![5, 6]);
    assert!(matches!(app.files[0].load, LoadStatus::Ready));
    app.files[0].load = LoadStatus::Loading;
    finish_loading(&mut app, id, Err("gone".to_owned()));
    assert!(matches!(&app.files[0].load, LoadStatus::Failed(m) if m == "gone"));
}

#[test]
fn a_kept_layout_is_put_back() {
    let mut app = start();
    let (_, w) = open_archive(&mut app);
    let dock = Dock::new(vec![outer(Tab::Workspace(w)), outer(Tab::Settings)]);
    let inner = Dock::new(vec![DockTab::Inner(WorkspaceTab::Editor)]);
    apply_persisted_dock_layout(&mut app, KeptLayout::Unusable);
    assert!(app.workspaces[0].dock.find_tab(&DockTab::Inner(WorkspaceTab::VfsTree)).is_some());
    apply_persisted_dock_layout(
        &mut app,
        KeptLayout::Fit { outer: dock, inner: vec![(w, inner)] },
    );
    assert_eq!(all_tabs(&app.dock), vec![outer(Tab::Workspace(w)), outer(Tab::Settings)]);
    assert_eq!(all_tabs(&app.workspaces[0].dock), vec![DockTab::Inner(WorkspaceTab::Editor)]);
}

#[test]
fn a_plugin_mount_opens_in_the_tool_pane() {
    let mut app = start();
    let (id, split) = install_mount_tab(
        &mut app,
        "xbox".to_owned(),
        "tok".to_owned(),
        "Console".to_owned(),
        true,
    );
    assert_eq!(id.0, 1);
    let split = split.unwrap();
    assert_eq!(split.tabs, vec![outer(Tab::PluginMount(id))]);
    assert_eq!(app.mounts[0].display_name, "Console");
    assert_eq!(app.open_tabs.len(), 1);
}

#[test]
fn titles_tell_of_locks_and_edits() {
    let mut app = start();
    let id = open_disk(&mut app, "x.bin", &[1]);
    let t = title(&app, Tab::File(id), None);
    assert_eq!(t.icons, vec![Icon::Lock]);
    assert!(!t.dirty);
    assert!(matches!(t.label, Label::Text(s) if s == "x.bin"));
    assert!(app.files[0].editor.splice(0, 0, vec![1]));
    assert!(title(&app, Tab::File(id), None).dirty);
    assert!(matches!(title(&app, Tab::File(FileId(9)), None).label, Label::Text(s) if s == "file-9"));
    assert!(matches!(
        inner_title(&app, id, WorkspaceTab::VfsTree).label,
        Label::Text(s) if s == "VFS"
    ));
    assert!(closeable(Tab::File(id)));
}

#[test]
fn the_drop_overlay_tells_what_would_open() {
    assert!(drop_overlay_text(0, None).is_none());
    assert_eq!(drop_overlay_text(2, None).unwrap(), "Drop one file at a time");
    assert_eq!(drop_overlay_text(1, None).unwrap(), "Drop to open");
    assert_eq!(drop_overlay_text(1, Some("f.bin".to_owned())).unwrap(), "Drop to open\nf.bin");
}

#[test]
fn a_file_behind_a_read_only_mount_stays_locked() {
    let mut app = start();
    let (archive, w) = open_archive(&mut app);
    app.workspaces[0].writable = false;
    let entry = open_entry(&mut app, w, "e.txt", b"hi");
    let i = app.files.iter().position(|f| f.id == entry).unwrap();
    assert!(app.files[i].locked);
    focus_tab(&mut app.dock, outer(Tab::Workspace(w)));
    focus_tab(&mut app.workspaces[0].dock, DockTab::Inner(WorkspaceTab::VfsTree));
    assert_eq!(active_file_id(&mut app), Some(archive));
    focus_tab(&mut app.workspaces[0].dock, DockTab::Inner(WorkspaceTab::Entry(entry)));
    assert_eq!(active_file_id(&mut app), Some(entry));
    toggle_active_edit_mode(&mut app);
    assert_eq!(app.files[i].editor.edit_mode, EditMode::Readonly);
    assert_eq!(app.tab_focus, TabFocus::Outer);
}

#[test]
fn a_request_carries_its_selection() {
    let mut app = start();
    let done = app.open(
        OpenRequest {
            display_name: "r".to_owned(),
            source: None,
            bytes: vec![1, 2],
            selection: Some(Selection::caret(1)),
            scroll: Some(3),
            handler: Some("zip".to_owned()),
            suggested_template: None,
            parent_dir: None,
            loading: false,
        },
        true,
        None,
    );
    // Without a mount it stays a plain file.
    assert!(done.workspace.is_none());
    assert_eq!(app.files[0].editor.selection, Some(Selection::caret(1)));
    assert_eq!(app.files[0].scroll, 3);
}

#[test]
fn a_focused_file_is_mounted_beside_a_workspace() {
    let mut app = start();
    let (_, w) = open_archive(&mut app);
    let mut known = facts();
    known.handler = Some("tar".to_owned());
    let id = app.open_filesystem("b.tar".to_owned(), "/d/b.tar".to_owned(), vec![0], None, None, known);
    focus_file_tab(&mut app, id);
    match mount_active_file(&mut app) {
        MountPlan::Mount { file_id, handler } => assert_eq!((file_id, handler.as_str()), (id, "tar")),
        _ => panic!("the focused file is not mounted"),
    }
    let plain = open_disk(&mut app, "x.bin", &[1]);
    focus_file_tab(&mut app, plain);
    assert!(matches!(mount_active_file(&mut app), MountPlan::Nothing));
    focus_tab(&mut app.dock, outer(Tab::Workspace(w)));
    assert!(matches!(mount_active_file(&mut app),
        MountPlan::ShowTree { workspace_id, split: None } if workspace_id == w));
}

#[test]
fn a_closed_scratch_file_is_forgotten() {
    let mut app = start();
    let (first, one) = handle_new_file(&mut app);
    let (_, two) = handle_new_file(&mut app);
    open_disk(&mut app, "x.bin", &[1]);
    let before = open_scratches(&app.files);
    assert_eq!(before, vec![one, two]);
    assert!(closed_scratches(&before, &app.files).is_empty());
    close_file_tab_by_id(&mut app, first);
    assert_eq!(closed_scratches(&before, &app.files), vec![one]);
    assert_eq!(open_scratches(&app.files), vec![two]);
}

fn remembered(source: TabSource) -> OpenTabState {
    OpenTabState { source, selection: None, scroll: 0, as_workspace: false, visualizer_open: false }
}

#[test]
fn tabs_that_do_not_come_back_are_forgotten() {
    let mut app = start();
    let tabs = vec![
        remembered(TabSource::Filesystem("/d/gone".to_owned())),
        remembered(TabSource::Filesystem("/d/x.bin".to_owned())),
    ];
    let mut restored = Vec::new();
    for (tab, read) in tabs.iter().zip([ReadResult::NotFound, ReadResult::Bytes(vec![1])]) {
        restored.push(restore_one_tab(&mut app, tab, false, restore_input(read)).is_ok());
    }
    assert_eq!(restored, vec![false, true]);
    finish_restore(&mut app, tabs, &restored);
    assert_eq!(app.open_tabs.len(), 1);
    assert!(matches!(&app.open_tabs[0].source, TabSource::Filesystem(path) if path == "/d/x.bin"));
}

#[test]
fn each_tab_that_fails_tells_why() {
    let mut app = start();
    let scratch = remembered(TabSource::Anonymous { id: 7, title: "Untitled".to_owned() });
    let mut nowhere = restore_input(ReadResult::NotFound);
    nowhere.scratch_path = None;
    match restore_one_tab(&mut app, &scratch, false, nowhere) {
        Err(FileOpenError::Read { path, reason }) => {
            assert_eq!((path.as_str(), reason.as_str()), ("anonymous/7", "no data dir"))
        }
        _ => panic!("a scratch file came from nowhere"),
    }
    let entry = remembered(TabSource::VfsEntry {
        parent: Box::new(TabSource::Filesystem("/d/a.zip".to_owned())),
        entry_path: "in/e.txt".to_owned(),
    });
    match restore_one_tab(&mut app, &entry, false, restore_input(ReadResult::NotFound)) {
        Err(FileOpenError::Read { path, reason }) => {
            assert_eq!(path, "in/e.txt");
            assert_eq!(reason, "parent tab / mount not available");
        }
        _ => panic!("an entry came without its archive"),
    }
    let mount = remembered(TabSource::PluginMount {
        plugin_name: "p".to_owned(),
        token: "t".to_owned(),
        title: "T".to_owned(),
    });
    match restore_one_tab(&mut app, &mount, false, restore_input(ReadResult::NotFound)) {
        Err(FileOpenError::PluginMount { plugin_name, token, reason }) => {
            assert_eq!((plugin_name.as_str(), token.as_str()), ("p", "t"));
            assert_eq!(reason, "plugin no longer installed");
        }
        _ => panic!("a mount came without its plugin"),
    }
    assert!(app.files.is_empty() && app.mounts.is_empty());
}

#[test]
fn a_source_is_remembered_once() {
    let mut app = start();
    open_disk(&mut app, "x.bin", &[1]);
    open_disk(&mut app, "x.bin", &[1]);
    assert_eq!(app.files.len(), 2);
    assert_eq!(app.open_tabs.len(), 1);
}

#[test]
fn a_new_file_shares_no_title() {
    let mut app = start();
    app.open_tabs.push(remembered(TabSource::PluginMount {
        plugin_name: "p".to_owned(),
        token: "t".to_owned(),
        title: "Untitled".to_owned(),
    }));
    app.open_tabs.push(remembered(TabSource::VfsEntry {
        parent: Box::new(TabSource::Filesystem("/d/a.zip".to_owned())),
        entry_path: "in/Untitled 2".to_owned(),
    }));
    app.open_tabs.push(remembered(TabSource::Filesystem("/d/Untitled 3".to_owned())));
    let (id, _) = handle_new_file(&mut app);
    assert_eq!(app.files.iter().find(|f| f.id == id).unwrap().display_name, "Untitled 4");
    let mut app = start();
    install_mount_tab(&mut app, "p".to_owned(), "t".to_owned(), "Untitled".to_owned(), true);
    app.open_tabs.clear();
    let (id, _) = handle_new_file(&mut app);
    assert_eq!(app.files.iter().find(|f| f.id == id).unwrap().display_name, "Untitled 2");
}

#[test]
fn a_workspace_takes_the_place_of_its_file() {
    let mut app = start();
    let id = open_disk(&mut app, "a.zip", b"PK");
    let other = open_disk(&mut app, "x.bin", &[1]);
    // The archive stands alone in a pane of its own.
    app.dock = Dock::new(vec![outer(Tab::File(other))]);
    app.dock.state.main_surface_mut().split_right(NodeIndex::root(), 0.5, vec![outer(Tab::File(id))]);
    focus_file_tab(&mut app, id);
    let pane = app.dock.find_tab(&outer(Tab::File(id))).unwrap().node_pos();
    let (w, _) = finish_mount(&mut app, id, true);
    assert_eq!(app.dock.leaf(pane), Some((vec![outer(Tab::Workspace(w))], 0)));
    assert_eq!(app.dock.focused_leaf(), Some(pane));
    assert_eq!(all_tabs(&app.dock).len(), 2);
    collapse_workspace_to_file(&mut app, w);
    assert_eq!(app.dock.leaf(pane), Some((vec![outer(Tab::File(id))], 0)));
    assert!(app.workspaces.is_empty());
}

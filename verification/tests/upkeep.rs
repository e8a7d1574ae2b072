use hxy::dialogs::{answer_duplicate, answer_orphan, answer_patterns, answer_reload, answer_restore,
    kick_off_pattern_download, notice_change, pump_pattern_fetch, reload_body_key, ChangeStep,
    DuplicateAction,
    ExternalChangeKind, FetchNotice, FetchStatus, OrphanAction, PatternFetch,
    PatternsAnswer, PendingReload, RestoreAction, RestoreIntegrity};
use hxy::editor::{redo_and_jump, undo_and_jump, Edit, Selection};
use hxy::kept_edits::KeptEdits;
use hxy::mounting::{finish_mount, finish_vfs_open, plan_vfs_open, PendingVfsOpen};
use hxy::newfile::handle_new_file;
use hxy::opening::FileFacts;
use hxy::palette::{Mode, PluginCommand};
use hxy::plugins::{apply_plugin_events, dispatch_plugin_outcome, drain_pending_plugin_ops,
    report_install, report_plugin_removal, report_template_removal, InstallReport, InvokeOutcome,
    finish_install, finish_plugin_removal, finish_template_removal, new_removal, next_removal_step,
    record_removal_step, OpResult, PluginOp, PluginsEvent, RemovalReport, RemovalStep, StepOutcome};
use hxy::reload::{contents_after_reload, finish_entry, plan_reload, plan_remount, refresh_workspace_for_file,
    ReloadDecision};
use hxy::save::{finish_save, finish_writeback, plan_save, save_active_file, SavePlan};
use hxy::session::{focus_file_tab, HxyApp, PendingOrphanEntry};
use hxy::console::ConsoleSeverity;
use hxy::settings::{AppSettings, AutoReload, ByteHighlightMode, ByteHighlightScheme, OffsetBase};
use hxy::tabs::{FileId, WorkspaceId};
use hxy::watching::{path_in_use, watch_key_for, watch_root_for_file};

fn settings() -> AppSettings {
    AppSettings {
        offset_base: OffsetBase::Hex,
        hex_columns: 16,
        byte_value_highlight: true,
        byte_highlight_mode: ByteHighlightMode::Background,
        byte_highlight_scheme: ByteHighlightScheme::Class,
        show_minimap: true,
        minimap_colored: false,
        address_separator_enabled: true,
        address_separator_char: '_',
        check_for_updates: false,
        palette_escape_pops_to_parent: true,
        vim_keys: false,
        auto_reload: AutoReload::Ask,
        watch_prefs: Vec::new(),
        recent_files: Vec::new(),
    }
}

fn start() -> HxyApp {
    HxyApp::new(settings(), Vec::new(), true, false)
}

fn open_disk(app: &mut HxyApp, name: &str, bytes: &[u8]) -> FileId {
    let facts = FileFacts { handler: None, suggested_template: None, parent_dir: None };
    app.open_filesystem(name.to_owned(), format!("/d/{name}"), bytes.to_vec(), None, None, facts)
}

/// An archive that is mounted as a workspace, and one entry of it.
fn with_entry(app: &mut HxyApp, writable: bool, bytes: &[u8]) -> (FileId, WorkspaceId, FileId) {
    let archive = open_disk(app, "a.zip", b"PK");
    let (w, _) = finish_mount(app, archive, writable);
    let plan = plan_vfs_open(
        app,
        &PendingVfsOpen::Workspace { workspace_id: w, entry_path: "e.txt".to_owned() },
    )
    .unwrap();
    let entry = finish_vfs_open(app, plan, bytes.to_vec(), None);
    (archive, w, entry)
}

fn place(app: &HxyApp, id: FileId) -> usize {
    app.files.iter().position(|f| f.id == id).unwrap()
}

#[test]
fn a_file_is_saved_where_it_came_from() {
    let mut app = start();
    let id = open_disk(&mut app, "x.bin", &[1, 2]);
    focus_file_tab(&mut app, id);
    assert!(app.files[0].editor.splice(0, 1, vec![9]));
    match save_active_file(&mut app, false) {
        (Some(file), SavePlan::WriteTo { path }) => {
            assert_eq!((file, path.as_str()), (id, "/d/x.bin"))
        }
        _ => panic!("the file is not saved in place"),
    }
    let saved = finish_save(&mut app, id, "/d/x.bin".to_owned(), None, Ok(()));
    assert!(saved.ok);
    assert!(!app.files[0].editor.is_dirty());
    assert_eq!(app.files[0].editor.bytes, vec![9, 2]);
}

#[test]
fn saving_under_a_new_name_asks() {
    let mut app = start();
    let id = open_disk(&mut app, "x.bin", &[1]);
    match plan_save(&mut app, id, true) {
        SavePlan::Ask { name, near } => {
            assert_eq!(name, "x.bin");
            assert_eq!(near.as_deref(), Some("/d/x.bin"));
        }
        _ => panic!("nothing was asked"),
    }
    finish_save(&mut app, id, "/e/y.bin".to_owned(), Some("y.bin".to_owned()), Ok(()));
    assert_eq!(app.files[0].display_name, "y.bin");
    assert_eq!(app.files[0].source.as_ref().unwrap().root_path().as_deref(), Some("/e/y.bin"));
}

#[test]
fn a_failed_save_keeps_the_edits() {
    let mut app = start();
    let id = open_disk(&mut app, "x.bin", &[1]);
    assert!(app.files[0].editor.splice(0, 1, vec![9]));
    let saved = finish_save(&mut app, id, "/d/x.bin".to_owned(), None, Err("full".to_owned()));
    assert!(!saved.ok);
    assert!(app.files[0].editor.is_dirty());
    assert_eq!(app.console.last().unwrap().severity, ConsoleSeverity::Error);
}

#[test]
fn a_saved_scratch_file_is_a_scratch_file_no_more() {
    let mut app = start();
    let (id, scratch) = handle_new_file(&mut app);
    let saved =
        finish_save(&mut app, id, "/d/n.bin".to_owned(), Some("n.bin".to_owned()), Ok(()));
    assert!(saved.ok);
    assert_eq!(saved.drop_scratch, Some(scratch));
    assert_eq!(app.open_tabs.len(), 1);
    assert_eq!(app.open_tabs[0].source.root_path().as_deref(), Some("/d/n.bin"));
}

#[test]
fn an_entry_is_written_back_in_place() {
    let mut app = start();
    let (_, _, entry) = with_entry(&mut app, true, b"hello");
    let i = place(&app, entry);
    assert!(app.files[i].editor.splice(1, 2, b"EL".to_vec()));
    let ops = match plan_save(&mut app, entry, false) {
        SavePlan::WriteBack { ops, entry_path, .. } => {
            assert_eq!(entry_path, "e.txt");
            ops
        }
        _ => panic!("the entry is not written back"),
    };
    assert_eq!(ops.len(), 1);
    assert_eq!((ops[0].offset, ops[0].bytes.as_slice()), (1, b"EL".as_slice()));
    let (ok, split) = finish_writeback(&mut app, entry, &ops, &vec![Ok(2)]);
    assert!(ok && split.is_none());
    assert!(!app.files[i].editor.is_dirty());
    assert_eq!(app.files[i].editor.bytes, b"hELlo");
}

#[test]
fn an_entry_that_changed_its_length_is_refused() {
    let mut app = start();
    let (_, _, entry) = with_entry(&mut app, true, b"hello");
    let i = place(&app, entry);
    assert!(app.files[i].editor.splice(0, 0, b"x".to_vec()));
    assert!(matches!(plan_save(&mut app, entry, false), SavePlan::Refused { .. }));
    assert!(app.files[i].editor.is_dirty());
    assert_eq!(app.console.last().unwrap().severity, ConsoleSeverity::Error);
}

#[test]
fn a_write_that_was_cut_short_is_told() {
    let mut app = start();
    let (_, _, entry) = with_entry(&mut app, true, b"hello");
    let i = place(&app, entry);
    assert!(app.files[i].editor.splice(0, 3, b"HEL".to_vec()));
    let ops = match plan_save(&mut app, entry, false) {
        SavePlan::WriteBack { ops, .. } => ops,
        _ => panic!("the entry is not written back"),
    };
    let (ok, _) = finish_writeback(&mut app, entry, &ops, &vec![Ok(2)]);
    assert!(ok);
    assert!(app.console.iter().any(|e| e.severity == ConsoleSeverity::Warning
        && e.message == "partial write at offset 0: requested 3, wrote 2"));
}

#[test]
fn a_write_that_failed_keeps_the_edits() {
    let mut app = start();
    let (_, _, entry) = with_entry(&mut app, true, b"hello");
    let i = place(&app, entry);
    assert!(app.files[i].editor.splice(0, 1, b"H".to_vec()));
    let ops = match plan_save(&mut app, entry, false) {
        SavePlan::WriteBack { ops, .. } => ops,
        _ => panic!("the entry is not written back"),
    };
    let (ok, _) = finish_writeback(&mut app, entry, &ops, &vec![Err("gone".to_owned())]);
    assert!(!ok);
    assert!(app.files[i].editor.is_dirty());
    assert_eq!(app.console.last().unwrap().message, "write @ offset 0: gone");
}

#[test]
fn a_file_is_read_again() {
    let mut app = start();
    let id = open_disk(&mut app, "x.bin", &[1, 2, 3]);
    assert!(app.files[0].editor.splice(2, 1, vec![9]));
    assert_eq!(plan_reload(&app, id, ReloadDecision::KeepEdits).as_deref(), Some("/d/x.bin"));
    assert_eq!(plan_reload(&app, id, ReloadDecision::Ignore), None);
    // Edits are put on top of the new bytes.
    let done = app.apply_reload_decision(id, ReloadDecision::KeepEdits, Ok(vec![7, 7, 7, 7]), Ok(true));
    assert!(done.ok && done.entries.is_empty());
    assert_eq!(app.files[0].editor.bytes, vec![7, 7, 9, 7]);
    assert!(app.files[0].editor.is_dirty());
    assert!(app.apply_reload_decision(id, ReloadDecision::DiscardEdits, Ok(vec![4]), Ok(true)).ok);
    assert_eq!(app.files[0].editor.bytes, vec![4]);
    assert!(!app.files[0].editor.is_dirty());
    let gone = Err("gone".to_owned());
    assert!(!app.apply_reload_decision(id, ReloadDecision::DiscardEdits, gone, Ok(true)).ok);
    assert_eq!(app.files[0].editor.bytes, vec![4]);
}

#[test]
fn an_archive_is_mounted_again() {
    let mut app = start();
    let (archive, w, entry) = with_entry(&mut app, true, b"hello");
    assert!(plan_remount(&app, archive).is_none());
    app.files[0].handler = Some("zip".to_owned());
    assert_eq!(plan_remount(&app, archive).as_deref(), Some("zip"));
    let again = refresh_workspace_for_file(&mut app, archive, Ok(false));
    assert_eq!(again.entries.len(), 1);
    assert_eq!(again.entries[0].file_id, entry);
    assert!(!app.workspaces.iter().find(|x| x.id == w).unwrap().writable);
    for e in again.entries {
        finish_entry(&mut app, e, None);
    }
    assert_eq!(app.pending_orphans.len(), 1);
    answer_orphan(&mut app, OrphanAction::Keep);
    assert!(app.pending_orphans.is_empty());
    assert_eq!(app.files.len(), 2);
}

#[test]
fn an_orphan_is_closed_on_request() {
    let mut app = start();
    let (_, _, entry) = with_entry(&mut app, true, b"hello");
    app.pending_orphans.push(PendingOrphanEntry {
        file_id: entry,
        display_name: "e.txt".to_owned(),
        entry_path: "e.txt".to_owned(),
    });
    answer_orphan(&mut app, OrphanAction::Close);
    assert_eq!(app.files.len(), 1);
}

#[test]
fn a_change_on_disk_is_answered_and_remembered() {
    let mut app = start();
    let id = open_disk(&mut app, "x.bin", &[1]);
    let pending = |kind| PendingReload {
        file_id: id,
        path: "/d/x.bin".to_owned(),
        kind,
        has_unsaved: false,
    };
    let step = answer_reload(
        &mut app,
        pending(ExternalChangeKind::Modified),
        ReloadDecision::DiscardEdits,
        true,
    );
    assert_eq!(step.reload, Some(id));
    let key = watch_key_for(&app, id).unwrap();
    assert_eq!(app.settings.auto_reload_for(&key), AutoReload::Always);
    let other = "/d/other".to_owned();
    assert_eq!(app.settings.auto_reload_for(&other), AutoReload::Ask);
    answer_reload(&mut app, pending(ExternalChangeKind::Modified), ReloadDecision::Ignore, true);
    assert_eq!(app.settings.auto_reload_for(&key), AutoReload::Never);
    assert!(reload_body_key(ExternalChangeKind::Modified)
        != reload_body_key(ExternalChangeKind::Removed));
}

#[test]
fn what_is_watched_follows_the_choice() {
    let mut app = start();
    let id = open_disk(&mut app, "x.bin", &[1]);
    assert_eq!(watch_root_for_file(&app, id).watch_path.as_deref(), Some("/d/x.bin"));
    app.set_file_watch_pref(id, AutoReload::Never);
    assert!(watch_root_for_file(&app, id).watch_path.is_none());
    assert!(path_in_use(&app.files, &"/d/x.bin".to_owned()));
    let scratch = handle_new_file(&mut app).0;
    assert!(watch_key_for(&app, scratch).is_none());
}

#[test]
fn a_duplicate_is_focused_or_opened() {
    let mut app = start();
    open_disk(&mut app, "x.bin", &[1]);
    assert!(!app.request_open_filesystem("x.bin".to_owned(), "/d/x.bin".to_owned()));
    assert!(answer_duplicate(&mut app, DuplicateAction::Focus).is_none());
    assert!(app.pending_duplicate.is_none());
    assert!(!app.request_open_filesystem("x.bin".to_owned(), "/d/x.bin".to_owned()));
    let again = answer_duplicate(&mut app, DuplicateAction::OpenNewTab).unwrap();
    assert_eq!(again.path, "/d/x.bin");
    assert!(answer_duplicate(&mut app, DuplicateAction::Cancel).is_none());
}

#[test]
fn patterns_are_asked_for_once() {
    let mut app = HxyApp::new(settings(), Vec::new(), false, false);
    assert!(app.patterns_prompt);
    let d = answer_patterns(&mut app, PatternsAnswer::DontAsk);
    assert!(!d.download && d.declined);
    assert!(!app.patterns_prompt);
    assert!(!answer_patterns(&mut app, PatternsAnswer::Download).download);
    app.patterns_prompt = true;
    assert!(answer_patterns(&mut app, PatternsAnswer::Download).download);
}

#[test]
fn a_download_runs_to_its_end() {
    let mut fetch = PatternFetch {
        running: false,
        downloaded: None,
        requested: true,
        installed_hash: None,
        last_check: None,
    };
    assert!(matches!(kick_off_pattern_download(&mut fetch, true), Some(FetchNotice::Started)));
    assert!(fetch.running);
    assert!(kick_off_pattern_download(&mut fetch, true).is_none());
    pump_pattern_fetch(&mut fetch, Some(FetchStatus::Progress { downloaded: 10 }), 5);
    assert_eq!(fetch.downloaded, Some(10));
    let (notice, refresh) =
        pump_pattern_fetch(&mut fetch, Some(FetchStatus::Success { hash: "abc".to_owned() }), 7);
    assert!(matches!(notice, Some(FetchNotice::Done)));
    assert!(refresh);
    assert!(!fetch.running);
    assert_eq!(fetch.installed_hash.as_deref(), Some("abc"));
    assert_eq!(fetch.last_check, Some(7));
    let mut other = PatternFetch {
        running: false,
        downloaded: None,
        requested: true,
        installed_hash: None,
        last_check: None,
    };
    assert!(matches!(kick_off_pattern_download(&mut other, false), Some(FetchNotice::NoPlace)));
}

#[test]
fn kept_edits_come_back() {
    let mut app = start();
    let id = open_disk(&mut app, "x.bin", &[1, 2]);
    let kept = KeptEdits {
        below: Vec::new(),
        undo: vec![Edit { offset: 0, removed: vec![1], inserted: vec![9] }],
        redo: Vec::new(),
    };
    answer_restore(
        &mut app,
        id,
        "/d/x.bin".to_owned(),
        RestoreIntegrity::Clean,
        Ok(()),
        kept,
        RestoreAction::Restore,
    );
    assert_eq!(app.files[0].editor.bytes, vec![9, 2]);
    assert!(app.files[0].editor.is_dirty());
    assert!(app.files[0].editor.undo().is_some());
    assert_eq!(app.files[0].editor.bytes, vec![1, 2]);
}

#[test]
fn a_plugin_answers_with_more_commands() {
    let mut app = start();
    let name = "p".to_owned();
    let cmd = "c".to_owned();
    let more = vec![PluginCommand {
        id: "sub".to_owned(),
        label: "Sub".to_owned(),
        subtitle: None,
        icon: None,
    }];
    let mount = dispatch_plugin_outcome(&mut app, &name, &cmd, Some(InvokeOutcome::Cascade(more)));
    assert!(mount.is_none());
    assert!(app.palette.open);
    assert_eq!(app.palette.mode, Mode::PluginCascade);
    let asked = InvokeOutcome::Prompt { title: "Host?".to_owned(), default_value: Some("h".to_owned()) };
    dispatch_plugin_outcome(&mut app, &name, &cmd, Some(asked));
    assert_eq!(app.palette.mode, Mode::PluginPrompt);
    assert_eq!(app.palette.query, "h");
    let mount = InvokeOutcome::Mount { token: "t".to_owned(), title: "T".to_owned() };
    let wanted = dispatch_plugin_outcome(&mut app, &name, &cmd, Some(mount)).unwrap();
    assert_eq!((wanted.plugin_name.as_str(), wanted.token.as_str()), ("p", "t"));
}

#[test]
fn no_call_of_a_plugin_is_lost() {
    let mut app = start();
    let op = |ticket, result| PluginOp {
        ticket,
        plugin_name: "p".to_owned(),
        label: "run".to_owned(),
        elapsed_ms: 3,
        result,
    };
    let drained = drain_pending_plugin_ops(
        &mut app,
        vec![
            op(1, OpResult::Pending),
            op(2, OpResult::Answered { command_id: "c".to_owned(), outcome: Some(InvokeOutcome::Done) }),
            op(3, OpResult::Pending),
        ],
    );
    assert_eq!(drained.waiting, vec![1, 3]);
    assert_eq!(drained.done.len(), 1);
}

#[test]
fn events_of_the_plugin_manager_are_collected() {
    let mut app = start();
    let step = apply_plugin_events(
        &mut app,
        vec![
            PluginsEvent::Rescan,
            PluginsEvent::WipeState { plugin_name: "a".to_owned() },
            PluginsEvent::WipeState { plugin_name: "b".to_owned() },
        ],
    );
    assert!(app.plugin_rescan);
    assert_eq!(step.wipe, vec!["a", "b"]);
    assert!(!step.download && !step.grants_changed);
}

#[test]
fn installs_and_removals_are_told() {
    let lines = report_install(&InstallReport {
        copied: vec!["x.bt".to_owned()],
        existing: Vec::new(),
        missing: Vec::new(),
        errors: vec![("y.bt".to_owned(), "no".to_owned())],
    });
    assert!(lines.iter().any(|l| l.severity == ConsoleSeverity::Error));
    assert_eq!(report_template_removal(&Err("busy".to_owned())).severity, ConsoleSeverity::Error);
    let removed = report_plugin_removal(&RemovalReport {
        read: Some(StepOutcome::Done),
        component: Some(StepOutcome::Failed("locked".to_owned())),
        manifest: Some(("m.json".to_owned(), StepOutcome::Done)),
        grants: Some(StepOutcome::Done),
        memory: Some(StepOutcome::Failed("db".to_owned())),
    });
    // One failure does not keep the others from being told.
    assert_eq!(removed.iter().filter(|l| l.severity == ConsoleSeverity::Error).count()
        + removed.iter().filter(|l| l.severity == ConsoleSeverity::Warning).count(), 2);
}

#[test]
fn a_caret_is_a_selection_of_one_byte() {
    let sel = Selection::caret(4);
    assert_eq!((sel.start(), sel.end(), sel.len()), (4, 5, 1));
}

#[test]
fn kept_edits_can_be_taken_back_after_a_reload() {
    let mut app = start();
    let id = open_disk(&mut app, "x.bin", &[1, 2, 3]);
    assert!(app.files[0].editor.splice(2, 1, vec![9]));
    assert!(app.files[0].editor.splice(0, 1, vec![8]));
    assert!(undo_and_jump(&mut app.files[0].editor));
    let new = vec![7, 7, 7, 7];
    assert_eq!(contents_after_reload(&app, id, ReloadDecision::KeepEdits, &new), vec![7, 7, 9, 7]);
    assert_eq!(contents_after_reload(&app, id, ReloadDecision::DiscardEdits, &new), new);
    assert!(app.apply_reload_decision(id, ReloadDecision::KeepEdits, Ok(new), Ok(true)).ok);
    let editor = &mut app.files[0].editor;
    assert_eq!(editor.bytes, vec![7, 7, 9, 7]);
    assert_eq!(editor.undo_stack.len(), 1);
    assert_eq!(editor.undo_stack[0].removed, vec![7]);
    // What had been taken back can be done again.
    assert!(redo_and_jump(editor));
    assert_eq!(editor.bytes, vec![8, 7, 9, 7]);
    assert!(undo_and_jump(editor));
    assert!(undo_and_jump(editor));
    assert_eq!(editor.bytes, vec![7, 7, 7, 7]);
    assert!(!editor.is_dirty());
    assert!(!undo_and_jump(editor));
}

/// A kept edit that puts one byte in place of another.
fn put(offset: u64, old: u8, new: u8) -> Edit {
    Edit { offset, removed: vec![old], inserted: vec![new] }
}

fn restore(app: &mut HxyApp, id: FileId, integrity: RestoreIntegrity, verified: Result<(), String>, kept: KeptEdits) {
    let split =
        answer_restore(app, id, "/d/x.bin".to_owned(), integrity, verified, kept, RestoreAction::Restore);
    assert!(split.is_none());
}

#[test]
fn kept_edits_are_laid_over_the_file_as_it_is() {
    let mut app = start();
    let id = open_disk(&mut app, "x.bin", &[9, 9]);
    let kept = KeptEdits {
        below: vec![put(1, 0, 5)],
        undo: vec![put(0, 0, 7), put(4, 0, 1)],
        redo: vec![put(8, 0, 2), put(0, 7, 6)],
    };
    restore(&mut app, id, RestoreIntegrity::Modified, Err("changed".to_owned()), kept);
    assert_eq!(app.console.last().unwrap().severity, ConsoleSeverity::Warning);
    let editor = &mut app.files[0].editor;
    // What reaches behind the end is passed over.
    assert_eq!(editor.bytes, vec![7, 5]);
    assert_eq!((editor.undo_stack.len(), editor.redo_stack.len()), (1, 1));
    assert!(redo_and_jump(editor));
    assert_eq!(editor.bytes, vec![6, 5]);
    assert!(undo_and_jump(editor));
    assert!(undo_and_jump(editor));
    assert_eq!(editor.bytes, vec![9, 5]);
    // The edits below the history stay.
    assert!(!undo_and_jump(editor));
    assert!(editor.is_dirty());
}

#[test]
fn kept_edits_take_the_place_of_others() {
    let mut app = start();
    let id = open_disk(&mut app, "x.bin", &[1, 2, 3]);
    assert!(app.files[0].editor.splice(2, 1, vec![8, 8]));
    let kept = KeptEdits { below: Vec::new(), undo: vec![put(0, 1, 9)], redo: Vec::new() };
    restore(&mut app, id, RestoreIntegrity::Unknown, Ok(()), kept);
    assert_eq!(app.files[0].editor.bytes, vec![9, 2, 3]);
    let none = KeptEdits { below: Vec::new(), undo: Vec::new(), redo: Vec::new() };
    restore(&mut app, id, RestoreIntegrity::Modified, Ok(()), none);
    assert_eq!(app.files[0].editor.bytes, vec![1, 2, 3]);
    assert!(!app.files[0].editor.is_dirty());
}

#[test]
fn edits_of_another_file_are_not_restored() {
    let mut app = start();
    let id = open_disk(&mut app, "x.bin", &[1, 2]);
    // Not even edits that could not have been made in it.
    let kept = KeptEdits { below: Vec::new(), undo: vec![put(50, 3, 4)], redo: vec![put(60, 1, 1)] };
    restore(&mut app, id, RestoreIntegrity::Clean, Err("digest".to_owned()), kept);
    assert_eq!(app.files[0].editor.bytes, vec![1, 2]);
    assert!(!app.files[0].editor.is_dirty());
    let last = app.console.last().unwrap();
    assert_eq!(last.severity, ConsoleSeverity::Warning);
    assert_eq!(last.message, "source verification failed; not restoring: digest");
}

#[test]
fn a_failed_mount_is_told_before_the_reload() {
    let mut app = start();
    let (archive, w, entry) = with_entry(&mut app, true, b"hello");
    app.files[0].handler = Some("zip".to_owned());
    let failed = Err("bad zip".to_owned());
    let done = app.apply_reload_decision(archive, ReloadDecision::DiscardEdits, Ok(vec![1]), failed);
    assert!(done.ok && done.entries.is_empty() && done.split.is_none());
    let told: Vec<&str> = app.console.iter().map(|line| line.message.as_str()).collect();
    assert_eq!(told[told.len() - 2], "re-mount zip after reload failed: bad zip");
    assert_eq!(told[told.len() - 1], "reloaded 1 byte(s); local edits discarded (a.zip)");
    let done = app.apply_reload_decision(archive, ReloadDecision::DiscardEdits, Ok(vec![2]), Ok(false));
    assert_eq!(done.entries.len(), 1);
    assert_eq!(done.entries[0].file_id, entry);
    assert!(!app.workspaces.iter().find(|x| x.id == w).unwrap().writable);
}

#[test]
fn every_step_of_a_removal_is_taken() {
    let mut report = new_removal();
    let mut steps = Vec::new();
    while let Some(step) = next_removal_step(&report, true) {
        steps.push(step);
        let came = match step {
            RemovalStep::Read => StepOutcome::Done,
            _ => StepOutcome::Failed("no".to_owned()),
        };
        record_removal_step(&mut report, step, "/p/x.toml".to_owned(), came);
    }
    assert_eq!(steps, vec![
        RemovalStep::Read,
        RemovalStep::RemoveComponent,
        RemovalStep::RemoveManifest,
        RemovalStep::ForgetGrants,
        RemovalStep::ClearMemory,
    ]);
    let mut app = start();
    assert!(finish_plugin_removal(&mut app, "/p/x.wasm", &report).is_some());
    assert!(app.plugin_rescan);
    assert!(app.console.iter().all(|line| line.context == "Uninstall /p/x.wasm"));
    assert_eq!(app.console[0].message, "remove component: no");
    assert_eq!(app.console[1].message, "remove manifest /p/x.toml: no");
    // Without reading the plugin its grants are not known.
    let mut report = new_removal();
    record_removal_step(&mut report, RemovalStep::Read, String::new(), StepOutcome::Failed("no".to_owned()));
    record_removal_step(&mut report, RemovalStep::RemoveComponent, String::new(), StepOutcome::Done);
    assert_eq!(next_removal_step(&report, false), Some(RemovalStep::ClearMemory));
}

#[test]
fn installs_and_removals_have_their_contexts() {
    let mut app = start();
    let report = InstallReport {
        copied: vec!["x.bt".to_owned()],
        existing: Vec::new(),
        missing: Vec::new(),
        errors: Vec::new(),
    };
    assert!(finish_install(&mut app, "/t/x.bt", &report).is_none());
    assert_eq!(app.console.last().unwrap().context, "Install /t/x.bt");
    assert!(app.plugin_rescan);
    app.plugin_rescan = false;
    assert!(finish_template_removal(&mut app, "/t/x.bt", &Err("busy".to_owned())).is_some());
    assert_eq!(app.console.last().unwrap().context, "Uninstall /t/x.bt");
    assert_eq!(app.console.last().unwrap().message, "delete failed: busy");
    assert!(!app.plugin_rescan);
    assert!(finish_template_removal(&mut app, "/t/x.bt", &Ok(())).is_none());
    assert!(app.plugin_rescan);
}

#[test]
fn a_change_on_disk_is_asked_about_once() {
    let mut app = start();
    let id = open_disk(&mut app, "x.bin", &[1]);
    let path = || "/d/x.bin".to_owned();
    let modified = ExternalChangeKind::Modified;
    assert!(matches!(notice_change(&app, "/d/y".to_owned(), modified, &Vec::new()), ChangeStep::Nothing));
    let waiting = match notice_change(&app, path(), modified, &Vec::new()) {
        ChangeStep::Ask(pending) => vec![pending],
        _ => panic!("nothing was asked"),
    };
    assert_eq!((waiting[0].file_id, waiting[0].has_unsaved), (id, false));
    assert!(matches!(notice_change(&app, path(), modified, &waiting), ChangeStep::Nothing));
    app.set_file_watch_pref(id, AutoReload::Always);
    assert!(matches!(notice_change(&app, path(), modified, &waiting), ChangeStep::Reload(it) if it == id));
    assert!(matches!(
        notice_change(&app, path(), ExternalChangeKind::Removed, &Vec::new()),
        ChangeStep::Ask(_)
    ));
    assert!(app.files[0].editor.splice(0, 1, vec![2]));
    assert!(matches!(
        notice_change(&app, path(), modified, &Vec::new()),
        ChangeStep::Ask(pending) if pending.has_unsaved
    ));
    app.set_file_watch_pref(id, AutoReload::Never);
    assert!(matches!(notice_change(&app, path(), modified, &Vec::new()), ChangeStep::Nothing));
}

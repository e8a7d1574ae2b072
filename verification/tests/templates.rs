use hxy::compare::{find_compare_of, finish_side, plan_side, respawn_persisted_compares, show_compare,
    spawn_compare_from_sources, CompareSideBytes, CompareSpawnError, SidePlan};
use hxy::console::{ConsoleSeverity, RunOutcome};
use hxy::copy::CopyKind;
use hxy::editor::{HexEditor, Selection};
use hxy::mounting::finish_mount;
use hxy::opening::FileFacts;
use hxy::runtimes::{build_default_resolver, builtins, convert_imhex_value, convert_node,
    convert_value, expand_array_refusal, imhex_patterns_repo_local, order_runtimes, parse_error,
    parse_hint, read_end, template_runtime_for, to_result_tree, BtNode, BtScalar, BtType, BtValue,
    HandlerError, HexpatValue, ParseStep, PatternBase, Runtime};
use hxy::search::{apply_search_events, current_caret, find_all, find_next, find_prev,
    nearest_match_idx, SearchEvent, SearchScope, SearchState};
use hxy::session::HxyApp;
use hxy::settings::{AppSettings, AutoReload, ByteHighlightMode, ByteHighlightScheme, OffsetBase};
use hxy::source::TabSource;
use hxy::tabs::{CompareId, DockTab, FileId, Tab};
use hxy::template::{format_template_struct, scalar_value_u64, select_node, DisplayHint, Node,
    NodeType, ScalarKind, Span, Value};
use hxy::template_panel::{apply_template_event, panel_visible, TemplateEffect, TemplateEvent,
    TemplatePanel};
use hxy::template_runs::{finish_template_run, rerun_template_for_file,
    restore_persisted_templates_for_source, run_template_from_path, suggest_templates_for,
    RanTemplate, RunRequest, RunStart, TemplateEntry, TemplateSlots};

fn settings() -> AppSettings {
    AppSettings {
        offset_base: OffsetBase::Hex,
        hex_columns: 16,
        byte_value_highlight: true,
        byte_highlight_mode: ByteHighlightMode::Background,
        byte_highlight_scheme: ByteHighlightScheme::Class,
        show_minimap: true,
        minimap_colored: false,
        address_separator_enabled: true,
        address_separator_char: '_',
        check_for_updates: false,
        palette_escape_pops_to_parent: true,
        vim_keys: false,
        auto_reload: AutoReload::Ask,
        watch_prefs: Vec::new(),
        recent_files: Vec::new(),
    }
}

fn start() -> HxyApp {
    HxyApp::new(settings(), Vec::new(), true, false)
}

fn open_disk(app: &mut HxyApp, name: &str, bytes: &[u8]) -> FileId {
    let facts = FileFacts { handler: None, suggested_template: None, parent_dir: None };
    app.open_filesystem(name.to_owned(), format!("/d/{name}"), bytes.to_vec(), None, None, facts)
}

fn leaf(name: &str, offset: u64, length: u64, value: Option<Value>, parent: Option<u32>) -> Node {
    Node {
        name: name.to_owned(),
        ident: name.to_owned(),
        type_label: "u16".to_owned(),
        node_type: NodeType::Scalar(ScalarKind::U16K),
        span: Span { offset, length },
        value,
        parent,
        display: None,
        attributes: Vec::new(),
    }
}

fn tree() -> Vec<Node> {
    let mut root = leaf("Header", 0, 4, None, None);
    root.node_type = NodeType::StructType("Header".to_owned());
    vec![
        root,
        leaf("magic", 0, 2, Some(Value::U16Val(0x4D5A)), Some(0)),
        leaf("size", 2, 2, Some(Value::U16Val(7)), Some(0)),
    ]
}

#[test]
fn matches_are_found_in_order() {
    let bytes = vec![1, 2, 1, 2, 1];
    assert_eq!(find_all(&bytes, &vec![1, 2]), vec![0, 2]);
    assert_eq!(find_all(&bytes, &vec![1, 2, 1]), vec![0, 2]);
    assert_eq!(find_next(&bytes, &vec![1], 1), Some(2));
    assert_eq!(find_prev(&bytes, &vec![1], 2), Some(0));
    assert_eq!(find_next(&bytes, &vec![9], 0), None);
    // The next match, or the last one behind all of them.
    assert_eq!(nearest_match_idx(&vec![0, 10, 20], 12), Some(2));
    assert_eq!(nearest_match_idx(&vec![0, 10, 20], 10), Some(1));
    assert_eq!(nearest_match_idx(&vec![0, 10, 20], 99), Some(2));
    assert_eq!(nearest_match_idx(&Vec::new(), 12), None);
    assert_eq!(current_caret(None), 0);
    assert_eq!(current_caret(Some(Selection { anchor: 3, cursor: 8 })), 8);
}

#[test]
fn the_search_bar_steps_through_matches() {
    let mut search = SearchState {
        open: true,
        all_results: false,
        pattern: Some(vec![1]),
        matches: Vec::new(),
        active_idx: None,
        scope: SearchScope::File,
        scroll_to: None,
    };
    let mut selection = Some(Selection::caret(0));
    let bytes = vec![1, 0, 1, 0, 1];
    apply_search_events(&mut search, &mut selection, &bytes, vec![SearchEvent::Next]);
    assert_eq!(selection.unwrap().start(), 2);
    apply_search_events(&mut search, &mut selection, &bytes, vec![SearchEvent::FindAll]);
    assert_eq!(search.matches, vec![0, 2, 4]);
    assert!(search.all_results);
    apply_search_events(
        &mut search,
        &mut selection,
        &bytes,
        vec![SearchEvent::JumpTo(2), SearchEvent::Close],
    );
    assert_eq!(selection.unwrap().start(), 4);
    assert!(!search.open);
}

#[test]
fn the_first_language_that_takes_an_extension_wins() {
    let own = builtins();
    assert_eq!(own.len(), 2);
    assert_eq!(template_runtime_for(&own, "BT"), Some(0));
    assert_eq!(template_runtime_for(&own, "pat"), Some(1));
    assert_eq!(template_runtime_for(&own, "c"), None);
    let plugin = Runtime { name: "mine".to_owned(), extensions: vec!["bt".to_owned(), "c".to_owned()] };
    let all = order_runtimes(own, vec![plugin]);
    // What was installed comes first.
    assert_eq!(all[0].name, "mine");
    assert_eq!(template_runtime_for(&all, "c"), Some(0));
    assert_eq!(template_runtime_for(&all, "bt"), Some(0));
    assert_eq!(template_runtime_for(&all, "pat"), Some(2));
}

#[test]
fn errors_tell_the_step() {
    assert!(matches!(parse_error(ParseStep::Lexed(Some("x".to_owned()))),
        Some(HandlerError::Malformed(t)) if t == "lex: x"));
    assert!(parse_error(ParseStep::Parsed(None)).is_none());
    assert!(matches!(expand_array_refusal("ImHex"), HandlerError::Unsupported(_)));
    assert_eq!(read_end(10, 5), 15);
    assert_eq!(read_end(u64::MAX, 5), u64::MAX);
    assert_eq!(imhex_patterns_repo_local(&vec![false, true, true]), Some(1));
    assert_eq!(build_default_resolver(false, false).len(), 0);
    assert!(matches!(build_default_resolver(true, false)[0], PatternBase::DataIncludes));
}

#[test]
fn values_are_converted_by_width() {
    assert!(matches!(convert_value(&BtValue::UInt { value: 0x1FF, width: 1 }), Value::U8Val(0xFF)));
    assert!(matches!(convert_value(&BtValue::SInt { value: -1, width: 4 }), Value::S32Val(-1)));
    assert!(matches!(convert_value(&BtValue::Bool(true)), Value::BoolVal(true)));
    assert!(matches!(convert_imhex_value(&HexpatValue::Bytes(vec![1])), Value::BytesVal(b) if b == vec![1]));
    assert_eq!(parse_hint("hex"), DisplayHint::Hex);
    let node = BtNode {
        name: "n".to_owned(),
        ident: "n".to_owned(),
        type_label: "uint16".to_owned(),
        ty: BtType::Scalar(BtScalar::U16),
        offset: 4,
        length: 2,
        value: Some(BtValue::UInt { value: 5, width: 2 }),
        parent: None,
        attrs: vec![("format".to_owned(), "hex".to_owned())],
    };
    let converted = convert_node(&node);
    assert_eq!(converted.span, Span { offset: 4, length: 2 });
    assert!(matches!(converted.value, Some(Value::U16Val(5))));
    assert_eq!(converted.display, Some(DisplayHint::Hex));
    assert_eq!(to_result_tree(&vec![node], &Vec::new()).nodes.len(), 1);
}

#[test]
fn a_template_becomes_source_text() {
    let nodes = tree();
    let rust = format_template_struct(&nodes, 0, CopyKind::StructRust).unwrap();
    assert!(rust.contains("Header"));
    assert!(rust.contains("magic"));
    let c = format_template_struct(&nodes, 0, CopyKind::StructC).unwrap();
    assert_ne!(rust, c);
    assert!(format_template_struct(&nodes, 9, CopyKind::StructC).is_none());
    assert_eq!(select_node(&nodes, 2), Some(Selection { anchor: 2, cursor: 3 }));
    assert_eq!(select_node(&nodes, 3), None);
    assert_eq!(scalar_value_u64(&Value::S8Val(-1)), Some(255));
    assert_eq!(scalar_value_u64(&Value::S64Val(-1)), Some(u64::MAX));
    assert_eq!(scalar_value_u64(&Value::BytesVal(vec![1])), None);
}

#[test]
fn the_panel_answers_its_events() {
    let mut panel = TemplatePanel { nodes: tree(), show_panel: true, hovered: None, show_colors: true };
    let mut editor = HexEditor::new(vec![0x5A, 0x4D, 7, 0]);
    assert!(panel_visible(None, true) && panel_visible(Some(true), false));
    assert!(!panel_visible(Some(false), false) && !panel_visible(None, false));
    assert!(matches!(
        apply_template_event(&mut panel, &mut editor, TemplateEvent::Select(2)),
        TemplateEffect::ScrollTo(2)
    ));
    assert_eq!(editor.selection, Some(Selection { anchor: 2, cursor: 3 }));
    assert!(matches!(
        apply_template_event(
            &mut panel,
            &mut editor,
            TemplateEvent::Copy { idx: 0, kind: CopyKind::StructRust }
        ),
        TemplateEffect::CopyText(_)
    ));
    assert!(matches!(
        apply_template_event(
            &mut panel,
            &mut editor,
            TemplateEvent::Copy { idx: 1, kind: CopyKind::BytesHexSpaced }
        ),
        TemplateEffect::Copy(_)
    ));
    match apply_template_event(&mut panel, &mut editor, TemplateEvent::SaveBytes(1)) {
        TemplateEffect::SaveBytes { name, bytes } => {
            assert_eq!((name.as_str(), bytes), ("magic.bin", vec![0x5A, 0x4D]))
        }
        _ => panic!("nothing was saved"),
    }
    apply_template_event(&mut panel, &mut editor, TemplateEvent::Hover(Some(1)));
    apply_template_event(&mut panel, &mut editor, TemplateEvent::ToggleColors(false));
    apply_template_event(&mut panel, &mut editor, TemplateEvent::Close);
    assert_eq!((panel.hovered, panel.show_colors, panel.show_panel), (Some(1), false, false));
    assert!(matches!(
        apply_template_event(&mut panel, &mut editor, TemplateEvent::Select(9)),
        TemplateEffect::Nothing
    ));
}

fn request(id: FileId, extension: &str, text: Result<String, String>) -> RunRequest {
    RunRequest {
        file_id: id,
        template_name: format!("t.{extension}"),
        path: format!("/t.{extension}"),
        extension: extension.to_owned(),
        plugin_dir: Some("/plugins".to_owned()),
        text,
    }
}

#[test]
fn a_run_starts_or_is_refused() {
    let mut app = start();
    let id = open_disk(&mut app, "x.bin", &[1]);
    let langs = builtins();
    let (start, split) = run_template_from_path(&mut app, &langs, request(id, "bt", Ok("int a;".to_owned())));
    assert!(matches!(start, RunStart::Started { runtime: 0, .. }));
    assert!(split.is_none());
    assert_eq!(app.console.last().unwrap().context, "x.bin / t.bt");
    let (start, split) = run_template_from_path(&mut app, &langs, request(id, "c", Ok(String::new())));
    assert!(matches!(start, RunStart::Refused(m) if m.ends_with("/plugins")));
    // An error brings the console up.
    assert_eq!(split.unwrap().tabs, vec![DockTab::Outer(Tab::Console)]);
    let (start, _) = run_template_from_path(&mut app, &langs, request(id, "bt", Err("gone".to_owned())));
    assert!(matches!(start, RunStart::Refused(m) if m == "Failed to read template source /t.bt: gone"));
    let (start, _) =
        run_template_from_path(&mut app, &langs, request(FileId(9), "bt", Ok(String::new())));
    assert!(matches!(start, RunStart::Gone));
    finish_template_run(&mut app, id, "t.bt", &RunOutcome::Ran(Vec::new()));
    assert_eq!(app.console.last().unwrap().severity, ConsoleSeverity::Info);
}

fn entry(name: &str, extensions: &[&str], magic: &[&[u8]]) -> TemplateEntry {
    TemplateEntry {
        path: format!("/{name}"),
        name: name.to_owned(),
        description: None,
        extensions: extensions.iter().map(|e| e.to_string()).collect(),
        magic: magic.iter().map(|m| m.to_vec()).collect(),
    }
}

#[test]
fn a_few_fitting_templates_are_offered() {
    let ranked = vec![
        entry("a", &["zip"], &[]),
        entry("b", &[], &[b"PK"]),
        entry("c", &["zip"], &[]),
        entry("d", &["zip"], &[]),
    ];
    let offered = suggest_templates_for(ranked, &Some("zip".to_owned()), &b"PK\x03\x04".to_vec());
    assert_eq!(offered.iter().map(|t| t.name.as_str()).collect::<Vec<_>>(), vec!["a", "b", "c"]);
    let ranked = vec![entry("a", &["zip"], &[]), entry("b", &["png"], &[]), entry("c", &["zip"], &[])];
    let offered = suggest_templates_for(ranked, &Some("zip".to_owned()), &Vec::new());
    assert_eq!(offered.len(), 1);
    let offered = suggest_templates_for(vec![entry("a", &["zip"], &[])], &None, &Vec::new());
    assert!(offered.is_empty());
}

#[test]
fn templates_are_run_again() {
    let ran = || RanTemplate {
        path: "/t.bt".to_owned(),
        start: 0,
        end: 4,
        fingerprint: 1,
        colors: Vec::new(),
    };
    let mut slots = TemplateSlots { done: vec![ran(), ran()], active: Some(1), running: 1 };
    assert!(rerun_template_for_file(&mut slots).is_empty());
    assert_eq!(slots.done.len(), 2);
    slots.running = 0;
    assert_eq!(rerun_template_for_file(&mut slots).len(), 2);
    assert!(slots.done.is_empty() && slots.active.is_none());
    let mut app = start();
    let id = open_disk(&mut app, "x.bin", &[1]);
    app.open_tabs[0].visualizer_open = true;
    let source = TabSource::Filesystem("/d/x.bin".to_owned());
    assert_eq!(restore_persisted_templates_for_source(&mut app, &source, false), None);
    assert_eq!(restore_persisted_templates_for_source(&mut app, &source, true), Some(id));
    assert!(app.files[0].visualizer_open);
}

#[test]
fn sides_of_a_comparison_are_read() {
    let mut app = start();
    let disk = TabSource::Filesystem("/d/a.zip".to_owned());
    assert!(matches!(plan_side(&app, &disk), Ok(SidePlan::Disk { path }) if path == "/d/a.zip"));
    let inside =
        TabSource::VfsEntry { parent: Box::new(disk.clone()), entry_path: "e/f".to_owned() };
    assert!(matches!(plan_side(&app, &inside), Err(CompareSpawnError::ReadOpenFile(m))
        if m == "parent VFS mount missing"));
    let id = open_disk(&mut app, "a.zip", b"PK");
    finish_mount(&mut app, id, false);
    let plan = plan_side(&app, &inside).ok().unwrap();
    let side = finish_side(plan, None, Ok(vec![1])).ok().unwrap();
    assert_eq!(side.name, "f");
    let scratch = TabSource::Anonymous { id: 1, title: "Untitled".to_owned() };
    assert!(matches!(plan_side(&app, &scratch), Err(CompareSpawnError::Unsupported)));
    let unread = finish_side(
        SidePlan::Disk { path: "/d/x".to_owned() },
        Some("x".to_owned()),
        Err("no".to_owned()),
    );
    assert!(matches!(&unread, Err(CompareSpawnError::ReadFile { reason, .. }) if reason == "no"));
    let other = TabSource::Filesystem("/d/b".to_owned());
    assert!(spawn_compare_from_sources(&mut app, disk.clone(), other.clone(), unread, Ok(side)).is_err());
    assert_eq!(app.next_compare_id, 1);
    let both = |n: &str| Ok(CompareSideBytes { name: n.to_owned(), bytes: vec![] });
    let session =
        spawn_compare_from_sources(&mut app, disk.clone(), other.clone(), both("a"), both("b")).ok().unwrap();
    assert!(session.first.source.same(&disk) && session.second.source.same(&other));
    assert_eq!(session.id, CompareId(1));
    assert_eq!(app.next_compare_id, 2);
    show_compare(&mut app, session.id);
    assert!(app.dock.find_tab(&DockTab::Outer(Tab::Compare(session.id))).is_some());
    let sessions = vec![session];
    assert_eq!(find_compare_of(&sessions, &disk, &other), Some(0));
    assert_eq!(find_compare_of(&sessions, &other, &disk), None);
    let pairs = vec![
        (disk.clone(), other.clone()),
        (other.clone(), disk.clone()),
        (disk.clone(), other.clone()),
    ];
    assert_eq!(respawn_persisted_compares(pairs).len(), 2);
}

#[test]
fn a_struct_without_fields_has_no_text() {
    let mut root = leaf("Empty", 0, 0, None, None);
    root.node_type = NodeType::StructType("Empty".to_owned());
    let nodes = vec![root];
    assert!(format_template_struct(&nodes, 0, CopyKind::StructC).is_none());
    assert!(format_template_struct(&nodes, 0, CopyKind::StructRust).is_none());
}

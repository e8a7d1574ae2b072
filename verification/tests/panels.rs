use hxy::closing::on_close;
use hxy::dock_ops::{find_tool_leaf, TOOL_PANE_KEEP};
use hxy::panels::toggle_tools;
use hxy::runtimes::{to_imhex_result_tree, Diagnostic, HexpatNode, HexpatScalar, HexpatType, HexpatValue, Severity};
use hxy::session::HxyApp;
use hxy::settings::{AppSettings, AutoReload, ByteHighlightMode, ByteHighlightScheme, OffsetBase};
use hxy::tabs::{is_tool_tab, DockTab, FileId, MountId, Tab};
use hxy::template::{NodeType, ScalarKind};
use hxy::tool_pane::ToolPanel;

fn settings() -> AppSettings {
    AppSettings {
        offset_base: OffsetBase::Hex,
        hex_columns: 16,
        byte_value_highlight: true,
        byte_highlight_mode: ByteHighlightMode::Background,
        byte_highlight_scheme: ByteHighlightScheme::Class,
        show_minimap: true,
        minimap_colored: false,
        address_separator_enabled: true,
        address_separator_char: '_',
        check_for_updates: false,
        palette_escape_pops_to_parent: true,
        vim_keys: false,
        auto_reload: AutoReload::Ask,
        watch_prefs: Vec::new(),
        recent_files: Vec::new(),
    }
}

fn start() -> HxyApp {
    HxyApp::new(settings(), Vec::new(), true, false)
}


fn holds(app: &HxyApp, tab: Tab) -> bool {
    app.dock.find_tab(&DockTab::Outer(tab)).is_some()
}

/// Makes the pane that a split asks for as one more tab of the only pane.
fn put(app: &mut HxyApp, tab: Tab) {
    app.dock.push_to_focused_leaf(DockTab::Outer(tab));
}

#[test]
fn the_first_tool_asks_for_a_pane_on_the_right() {
    let mut app = start();
    let split = app.show_plugins().unwrap();
    assert_eq!(split.keep_percent, TOOL_PANE_KEEP);
    assert_eq!(split.tabs, vec![DockTab::Outer(Tab::Plugins)]);
    assert_eq!((split.at.surface, split.at.node), (0, 0));
    assert!(!holds(&app, Tab::Plugins));
}

#[test]
fn a_tool_that_is_shown_is_toggled_away() {
    let mut app = start();
    put(&mut app, Tab::Inspector);
    assert!(app.toggle_inspector().is_none());
    assert!(!holds(&app, Tab::Inspector));
    put(&mut app, Tab::Memory);
    assert!(app.toggle_memory_panel().is_none());
    assert!(!holds(&app, Tab::Memory));
    put(&mut app, Tab::Plugins);
    assert!(app.toggle_plugins().is_none());
    assert!(!holds(&app, Tab::Plugins));
}

#[test]
fn a_tool_joins_the_pane_of_tools() {
    let mut app = start();
    let pane = app.dock.find_tab(&DockTab::Outer(Tab::Welcome)).unwrap().node_pos();
    assert!(app.dock.set_leaf(pane, vec![DockTab::Outer(Tab::Plugins)], 0));
    assert_eq!(find_tool_leaf(&app.dock), Some(pane));
    assert!(app.show_memory_panel().is_none());
    let (tabs, active) = app.dock.leaf(pane).unwrap();
    assert_eq!(tabs, vec![DockTab::Outer(Tab::Plugins), DockTab::Outer(Tab::Memory)]);
    assert_eq!(active, 1);
}

#[test]
fn tools_come_back_as_they_were_hidden() {
    let mut app = start();
    let mount = Tab::PluginMount(MountId(7));
    put(&mut app, Tab::Plugins);
    put(&mut app, mount);
    put(&mut app, Tab::Memory);
    assert!(matches!(toggle_tools(&mut app), ToolPanel::Hidden));
    assert!(!holds(&app, Tab::Plugins) && !holds(&app, mount));
    // Tools that belong to no plugin stay.
    assert!(holds(&app, Tab::Memory));
    match toggle_tools(&mut app) {
        ToolPanel::Restore { split, rest } => {
            assert_eq!(split.tabs, vec![DockTab::Outer(Tab::Plugins)]);
            assert_eq!(rest, vec![DockTab::Outer(mount)]);
        }
        _ => panic!("the tools were hidden"),
    }
}

#[test]
fn the_settings_are_a_page() {
    let mut app = start();
    app.show_settings();
    assert!(holds(&app, Tab::Settings));
    app.show_settings();
    let pos = app.dock.find_tab(&DockTab::Outer(Tab::Settings)).unwrap();
    assert_eq!(app.dock.leaf(pos.node_pos()).unwrap().1, pos.tab);
    app.toggle_settings();
    assert!(!holds(&app, Tab::Settings));
}

#[test]
fn a_visualizer_opens_by_itself_only_where_it_was_open() {
    let mut app = start();
    let id = app.open_in_memory("x".to_owned(), vec![1]);
    assert!(app.auto_open_visualizer_for(id, true).is_none());
    app.files[0].visualizer_open = true;
    assert!(app.auto_open_visualizer_for(id, false).is_none());
    assert!(app.auto_open_visualizer_for(FileId::new(99), true).is_none());
    let split = app.auto_open_visualizer_for(id, true).unwrap();
    assert_eq!(split.tabs, vec![DockTab::Outer(Tab::Visualizer(id))]);
}

#[test]
fn a_result_tree_keeps_its_nodes_and_messages() {
    let node = HexpatNode {
        name: "head".to_owned(),
        ident: "head".to_owned(),
        type_label: "u16".to_owned(),
        ty: HexpatType::Scalar(HexpatScalar::U16),
        offset: 4,
        length: 2,
        value: Some(HexpatValue::UInt { value: 7, width: 2 }),
        parent: None,
        attrs: Vec::new(),
    };
    let message = Diagnostic {
        message: "odd".to_owned(),
        severity: Severity::Warning,
        file_offset: Some(4),
        template_line: None,
    };
    let tree = to_imhex_result_tree(&vec![node], &vec![message]);
    assert_eq!(tree.nodes.len(), 1);
    assert!(matches!(tree.nodes[0].node_type, NodeType::Scalar(ScalarKind::U16K)));
    assert_eq!((tree.nodes[0].span.offset, tree.nodes[0].span.length), (4, 2));
    assert_eq!(tree.diagnostics[0].message, "odd");
    assert_eq!(tree.diagnostics[0].file_offset, Some(4));
}

#[test]
fn a_visualizer_that_was_closed_stays_away() {
    let mut app = start();
    let id = app.open_in_memory("x".to_owned(), vec![1]);
    app.files[0].visualizer_open = true;
    put(&mut app, Tab::Visualizer(id));
    assert!(app.show_visualizer_for(id).is_none());
    assert!(holds(&app, Tab::Visualizer(id)));
    assert!(on_close(&mut app, Tab::Visualizer(id)));
    app.dock.state.main_surface_mut().retain_tabs(|tab| *tab != DockTab::Outer(Tab::Visualizer(id)));
    assert!(app.files[0].visualizer_dismissed && !app.files[0].visualizer_open);
    assert!(app.show_visualizer_for(id).is_none());
    assert!(app.auto_open_visualizer_for(id, true).is_none());
    assert!(!holds(&app, Tab::Visualizer(id)));
    // The user can still ask for it.
    let split = app.reopen_visualizer_for(id).unwrap();
    assert_eq!(split.tabs, vec![DockTab::Outer(Tab::Visualizer(id))]);
    assert!(app.files[0].visualizer_open && !app.files[0].visualizer_dismissed);
}

#[test]
fn only_the_tabs_of_plugins_are_hidden_together() {
    for tab in [Tab::Plugins, Tab::PluginMount(MountId(1))] {
        let mut app = start();
        put(&mut app, tab);
        assert!(is_tool_tab(&tab));
        assert!(matches!(toggle_tools(&mut app), ToolPanel::Hidden));
        assert!(!holds(&app, tab));
    }
    for tab in [Tab::Inspector, Tab::Memory, Tab::Strings(FileId(1))] {
        let mut app = start();
        put(&mut app, tab);
        assert!(is_tool_tab(&tab));
        assert!(matches!(toggle_tools(&mut app), ToolPanel::Unchanged));
        assert!(holds(&app, tab));
    }
}

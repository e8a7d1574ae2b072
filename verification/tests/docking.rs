use egui_dock::NodeIndex;
use hxy::commands::DockDir;
use hxy::dock::{Dock, NodePos, NodeShape};
use hxy::dock_ops::{close_tab, find_content_leaf, find_tool_leaf, focus_tab, push_tool_tab,
    show_tool_tab, toggle_below, toggle_page, toggle_tool_tab, Placement, CONSOLE_KEEP,
    TOOL_PANE_KEEP};
use hxy::moves::{all_tabs, cycle_outer_focused_leaf, dock_merge_focused, dock_merge_to,
    dock_move_focused_tab, dock_move_tab_to, dock_split_focused, resolve_target_leaf,
    toggle_tab_focus};
use hxy::panes::{active_focused, find_neighbor_leaf, focus_content_leaf, remove_welcome_from_leaf,
    track_content_leaf};
use hxy::tabs::{is_content_tab, is_tool_tab, DockTab, FileId, MountId, Tab, TabFocus, WorkspaceId,
    WorkspaceTab};
use hxy::tool_pane::{ensure_vfs_tree_visible, inner_active_file, only_editor_left,
    push_workspace_entry, refill_tool_pane, toggle_tool_panel, toggle_workspace_vfs,
    workspace_entries, ToolPanel};

fn file(n: u64) -> DockTab {
    DockTab::Outer(Tab::File(FileId(n)))
}

fn outer(tab: Tab) -> DockTab {
    DockTab::Outer(tab)
}

/// Two panes side by side: files 1 and 2 on the left, file 3 on the right.
fn two_panes() -> Dock {
    let mut dock = Dock::new(vec![file(1), file(2)]);
    dock.state.main_surface_mut().split_right(NodeIndex::root(), 0.5, vec![file(3)]);
    dock
}

fn tabs_at(dock: &Dock, node: usize) -> Vec<DockTab> {
    dock.leaf(NodePos { surface: 0, node }).unwrap().0
}

#[test]
fn a_fresh_dock_has_one_pane() {
    let dock = Dock::new(vec![file(1), file(2)]);
    assert_eq!(dock.surfaces(), 1);
    let nodes = dock.nodes(0).unwrap();
    assert_eq!(nodes.len(), 1);
    assert!(matches!(&nodes[0], NodeShape::Leaf { tabs, active: 0 } if tabs.len() == 2));
    assert!(dock.nodes(1).is_none());
    assert!(dock.focused_leaf().is_none());
    assert!(dock.shape_fits());
    assert_eq!(all_tabs(&dock), vec![file(1), file(2)]);
}

#[test]
fn pushed_tabs_open_and_take_focus() {
    let mut dock = Dock::new(vec![file(1)]);
    dock.push_to_focused_leaf(file(2));
    assert_eq!(dock.leaf(NodePos { surface: 0, node: 0 }), Some((vec![file(1), file(2)], 1)));
    let pos = dock.find_tab(&file(2)).unwrap();
    assert_eq!((pos.surface, pos.node, pos.tab), (0, 0, 1));
    assert!(dock.find_tab(&file(9)).is_none());
}

#[test]
fn a_tab_is_opened_and_focused() {
    let mut dock = two_panes();
    assert!(focus_tab(&mut dock, file(1)));
    assert_eq!(active_focused(&dock), Some(file(1)));
    assert!(!focus_tab(&mut dock, file(7)));
    assert_eq!(active_focused(&dock), Some(file(1)));
    assert_eq!(dock.focused_leaf(), Some(NodePos { surface: 0, node: 1 }));
}

#[test]
fn a_tab_that_is_closed_is_gone() {
    let mut dock = two_panes();
    assert!(close_tab(&mut dock, file(2)));
    assert_eq!(all_tabs(&dock), vec![file(1), file(3)]);
    assert!(!close_tab(&mut dock, file(2)));
    assert!(close_tab(&mut dock, file(3)));
    // The pane of the last tab went with it.
    assert_eq!(dock.nodes(0).unwrap().iter().filter(|n| matches!(n, NodeShape::Leaf { .. })).count(), 1);
    assert_eq!(all_tabs(&dock), vec![file(1)]);
    assert!(dock.shape_fits());
}

#[test]
fn tabs_are_cycled_round() {
    let mut dock = Dock::new(vec![file(1), file(2), file(3)]);
    focus_tab(&mut dock, file(3));
    cycle_outer_focused_leaf(&mut dock, true);
    assert_eq!(active_focused(&dock), Some(file(1)));
    cycle_outer_focused_leaf(&mut dock, false);
    assert_eq!(active_focused(&dock), Some(file(3)));
}

#[test]
fn panes_have_neighbours() {
    let dock = two_panes();
    let nodes = dock.nodes(0).unwrap();
    assert_eq!(find_neighbor_leaf(&nodes, 1, DockDir::Right), Some(2));
    assert_eq!(find_neighbor_leaf(&nodes, 2, DockDir::Left), Some(1));
    assert_eq!(find_neighbor_leaf(&nodes, 1, DockDir::Left), None);
    assert_eq!(find_neighbor_leaf(&nodes, 1, DockDir::Up), None);
}

#[test]
fn a_pane_is_merged_into_another() {
    let mut dock = two_panes();
    dock_merge_to(&mut dock, NodePos { surface: 0, node: 1 }, NodePos { surface: 0, node: 2 });
    let mut tabs = all_tabs(&dock);
    tabs.sort_by_key(|t| format!("{t:?}"));
    assert_eq!(tabs, vec![file(1), file(2), file(3)]);
    assert_eq!(dock.nodes(0).unwrap().iter().filter(|n| matches!(n, NodeShape::Leaf { .. })).count(), 1);
    assert_eq!(tabs_at(&dock, 0), vec![file(3), file(1), file(2)]);
}

#[test]
fn merging_follows_the_direction() {
    let mut dock = two_panes();
    focus_tab(&mut dock, file(1));
    dock_merge_focused(&mut dock, None, DockDir::Left);
    assert_eq!(tabs_at(&dock, 1), vec![file(1), file(2)]);
    dock_merge_focused(&mut dock, None, DockDir::Right);
    assert_eq!(tabs_at(&dock, 0).len(), 3);
}

#[test]
fn a_tab_moves_to_another_pane() {
    let mut dock = two_panes();
    focus_tab(&mut dock, file(2));
    dock_move_focused_tab(&mut dock, None, DockDir::Right);
    assert_eq!(tabs_at(&dock, 1), vec![file(1)]);
    assert_eq!(tabs_at(&dock, 2), vec![file(3), file(2)]);
    dock_move_tab_to(&mut dock, NodePos { surface: 0, node: 2 }, NodePos { surface: 0, node: 1 });
    assert_eq!(tabs_at(&dock, 1).len(), 2);
}

#[test]
fn a_split_is_asked_for_where_the_focus_is() {
    let mut dock = two_panes();
    focus_tab(&mut dock, file(3));
    let split = dock_split_focused(&dock, None, DockDir::Down).unwrap();
    assert_eq!(split.at, NodePos { surface: 0, node: 2 });
    assert_eq!(split.dir, DockDir::Down);
    assert_eq!(split.keep_percent, 50);
    assert_eq!(split.tabs, vec![outer(Tab::Welcome)]);
    // Without focus the pane of the active file counts.
    let fresh = Dock::new(vec![file(4)]);
    assert_eq!(
        resolve_target_leaf(&fresh, Some(FileId(4))),
        Some(NodePos { surface: 0, node: 0 })
    );
}

#[test]
fn tools_share_a_pane() {
    let mut dock = Dock::new(vec![file(1)]);
    assert!(find_tool_leaf(&dock).is_none());
    let split = show_tool_tab(&mut dock, Tab::Inspector).unwrap();
    assert_eq!(split.dir, DockDir::Right);
    assert_eq!(split.keep_percent, TOOL_PANE_KEEP);
    assert_eq!(split.tabs, vec![outer(Tab::Inspector)]);
    dock.state.main_surface_mut().split_right(NodeIndex::root(), 0.72, split.tabs);
    assert_eq!(find_tool_leaf(&dock), Some(NodePos { surface: 0, node: 2 }));
    assert_eq!(find_content_leaf(&dock), Some(NodePos { surface: 0, node: 1 }));
    assert!(show_tool_tab(&mut dock, Tab::Memory).is_none());
    assert_eq!(tabs_at(&dock, 2), vec![outer(Tab::Inspector), outer(Tab::Memory)]);
    assert!(matches!(push_tool_tab(&mut dock, Tab::Plugins), Placement::Placed(p) if p.node == 2));
    assert!(toggle_tool_tab(&mut dock, Tab::Memory).is_none());
    assert_eq!(tabs_at(&dock, 2), vec![outer(Tab::Inspector), outer(Tab::Plugins)]);
}

#[test]
fn the_tool_pane_is_hidden_and_comes_back() {
    let mut dock = Dock::new(vec![file(1)]);
    dock.state.main_surface_mut().split_right(
        NodeIndex::root(),
        0.72,
        vec![outer(Tab::Plugins), outer(Tab::PluginMount(MountId(4))), outer(Tab::Inspector)],
    );
    let mut hidden = Vec::new();
    assert!(matches!(toggle_tool_panel(&mut dock, &mut hidden), ToolPanel::Hidden));
    assert_eq!(all_tabs(&dock), vec![file(1), outer(Tab::Inspector)]);
    assert_eq!(hidden, vec![outer(Tab::Plugins), outer(Tab::PluginMount(MountId(4)))]);
    match toggle_tool_panel(&mut dock, &mut hidden) {
        ToolPanel::Restore { split, rest } => {
            assert!(hidden.is_empty());
            let first = split.tabs[0];
            dock.state.main_surface_mut().split_right(NodeIndex::root(), 0.72, split.tabs);
            refill_tool_pane(&mut dock, first, &rest);
        }
        _ => panic!("the tools were not restored"),
    }
    let mut all = all_tabs(&dock);
    all.retain(|tab| *tab != file(1) && *tab != outer(Tab::Inspector));
    assert_eq!(all, vec![outer(Tab::Plugins), outer(Tab::PluginMount(MountId(4)))]);
    let mut bare = Dock::new(vec![file(1)]);
    assert!(matches!(toggle_tool_panel(&mut bare, &mut hidden), ToolPanel::Unchanged));
}

#[test]
fn pages_and_the_console_are_toggled() {
    let mut dock = Dock::new(vec![file(1)]);
    toggle_page(&mut dock, Tab::Settings);
    assert!(dock.find_tab(&outer(Tab::Settings)).is_some());
    toggle_page(&mut dock, Tab::Settings);
    assert!(dock.find_tab(&outer(Tab::Settings)).is_none());
    let split = toggle_below(&mut dock, Tab::Console, CONSOLE_KEEP).unwrap();
    assert_eq!((split.dir, split.keep_percent), (DockDir::Down, 75));
    dock.state.main_surface_mut().split_below(NodeIndex::root(), 0.75, split.tabs);
    assert!(toggle_below(&mut dock, Tab::Console, CONSOLE_KEEP).is_none());
    assert_eq!(all_tabs(&dock), vec![file(1)]);
}

#[test]
fn the_editing_area_is_remembered() {
    let mut dock = Dock::new(vec![file(1)]);
    dock.state.main_surface_mut().split_right(NodeIndex::root(), 0.7, vec![outer(Tab::Inspector)]);
    let mut last = None;
    focus_tab(&mut dock, file(1));
    track_content_leaf(&dock, &mut last);
    assert_eq!(last, Some(NodePos { surface: 0, node: 1 }));
    focus_tab(&mut dock, outer(Tab::Inspector));
    track_content_leaf(&dock, &mut last);
    assert_eq!(last, Some(NodePos { surface: 0, node: 1 }));
    focus_content_leaf(&mut dock, &mut last);
    assert_eq!(dock.focused_leaf(), Some(NodePos { surface: 0, node: 1 }));
}

#[test]
fn the_welcome_page_makes_room() {
    let mut dock = Dock::new(vec![outer(Tab::Welcome), file(1)]);
    remove_welcome_from_leaf(&mut dock, NodePos { surface: 0, node: 0 });
    assert_eq!(all_tabs(&dock), vec![file(1)]);
}

#[test]
fn tab_kinds_do_not_overlap() {
    let tabs = [
        Tab::Welcome,
        Tab::Settings,
        Tab::Console,
        Tab::Inspector,
        Tab::File(FileId(1)),
        Tab::Strings(FileId(1)),
    ];
    for t in &tabs {
        assert!(!(is_tool_tab(t) && is_content_tab(t)));
    }
    assert!(is_tool_tab(&Tab::Inspector));
    assert!(is_content_tab(&Tab::Welcome));
    assert!(!is_tool_tab(&Tab::Console) && !is_content_tab(&Tab::Console));
}

#[test]
fn the_cycling_shortcut_changes_sides() {
    let mut dock = Dock::new(vec![file(1), outer(Tab::Workspace(WorkspaceId(5)))]);
    focus_tab(&mut dock, outer(Tab::Workspace(WorkspaceId(5))));
    assert_eq!(toggle_tab_focus(TabFocus::Outer, &dock), TabFocus::Workspace(WorkspaceId(5)));
    assert_eq!(toggle_tab_focus(TabFocus::Workspace(WorkspaceId(5)), &dock), TabFocus::Outer);
    focus_tab(&mut dock, file(1));
    assert_eq!(toggle_tab_focus(TabFocus::Outer, &dock), TabFocus::Outer);
}

#[test]
fn a_workspace_holds_its_entries() {
    let editor = DockTab::Inner(WorkspaceTab::Editor);
    let mut dock = Dock::new(vec![editor]);
    assert!(only_editor_left(&dock));
    let split = ensure_vfs_tree_visible(&dock).unwrap();
    assert_eq!((split.dir, split.keep_percent), (DockDir::Left, 30));
    dock.state.main_surface_mut().split_left(NodeIndex::root(), 0.3, split.tabs);
    assert!(ensure_vfs_tree_visible(&dock).is_none());
    push_workspace_entry(&mut dock, FileId(8));
    push_workspace_entry(&mut dock, FileId(9));
    assert_eq!(workspace_entries(&dock), vec![FileId(8), FileId(9)]);
    assert!(!only_editor_left(&dock));
    assert!(toggle_workspace_vfs(&mut dock).is_none());
    assert!(dock.find_tab(&DockTab::Inner(WorkspaceTab::VfsTree)).is_none());
    assert_eq!(inner_active_file(&dock, FileId(1)), FileId(9));
}

/// The tabs of each pane.
fn panes(dock: &Dock) -> Vec<Vec<DockTab>> {
    dock.nodes(0)
        .unwrap()
        .into_iter()
        .filter_map(|node| match node {
            NodeShape::Leaf { tabs, .. } => Some(tabs),
            _ => None,
        })
        .collect()
}

#[test]
fn other_panes_stay_where_tabs_change_panes() {
    let three = || {
        let mut dock = two_panes();
        dock.state.main_surface_mut().split_below(NodeIndex(2), 0.5, vec![file(4)]);
        dock
    };
    let mut dock = three();
    let source = dock.find_tab(&file(1)).unwrap().node_pos();
    let target = dock.find_tab(&file(3)).unwrap().node_pos();
    dock_merge_to(&mut dock, source, target);
    let left = panes(&dock);
    assert_eq!(left.len(), 2);
    assert!(left.contains(&vec![file(3), file(1), file(2)]));
    assert!(left.contains(&vec![file(4)]));
    // The last tab of a pane takes the pane with it.
    let mut dock = three();
    let source = dock.find_tab(&file(3)).unwrap().node_pos();
    let target = dock.find_tab(&file(1)).unwrap().node_pos();
    dock_move_tab_to(&mut dock, source, target);
    let left = panes(&dock);
    assert_eq!(left.len(), 2);
    assert!(left.contains(&vec![file(1), file(2), file(3)]));
    assert!(left.contains(&vec![file(4)]));
    assert!(dock.shape_fits());
}

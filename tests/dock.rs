use bevy_editor::dock::{DockLayout, DockNode, SplitDirection};
use bevy_editor::editor::EditorState;
use bevy_editor::panel::{PanelKind, PanelRegistry, ScenePanel, AssetsPanel};

fn tabs_of(n: &DockNode, out: &mut Vec<String>) {
    match n {
        DockNode::Leaf { tabs } => out.extend(tabs.iter().cloned()),
        DockNode::Split { first, second, .. } => {
            tabs_of(first, out);
            tabs_of(second, out);
        }
    }
}

#[test]
fn standard_layout_has_the_five_tabs() {
    let l = DockLayout::standard();
    let mut tabs = Vec::new();
    tabs_of(&l.main, &mut tabs);
    assert_eq!(tabs, vec!["Hierarchy", "Scene", "Resources", "Assets", "Inspector"]);
    assert!(l.windows.is_empty());
    match &l.main {
        DockNode::Split { direction, fraction_percent, .. } => {
            assert_eq!(*direction, SplitDirection::Horizontal);
            assert_eq!(*fraction_percent, 75);
        }
        DockNode::Leaf { .. } => panic!("expected a split"),
    }
}

#[test]
fn add_window_appends_a_floating_window() {
    let mut l = DockLayout::standard();
    l.add_window(vec!["Explorer".to_string()]);
    assert_eq!(l.windows, vec![vec!["Explorer".to_string()]]);
    let mut state = EditorState::new();
    state.open_panel_window(&"Assets".to_string());
    assert_eq!(state.docking.windows.len(), 1);
}

#[test]
fn registry_finds_panels_by_name() {
    let mut r = PanelRegistry::new();
    r.init_panels();
    r.init_panels();
    assert_eq!(r.names().len(), 6);
    assert_eq!(r.get("Scene"), Some(PanelKind::Scene));
    assert_eq!(r.get("Game"), None);
    assert!(!r.clear_background("Scene"));
    assert!(r.clear_background("Assets"));
    assert!(r.clear_background("Nowhere"));
    assert_eq!(ScenePanel.kind().name(), "Scene");
    assert_eq!(AssetsPanel.kind().name(), "Assets");
    assert!(!PanelKind::Game.clear_background());
}

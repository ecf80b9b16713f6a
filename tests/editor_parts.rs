use bevy_editor::inspector::InspectorView;
use bevy_editor::picking::{egui_picking, GuiWindow, PointerOverWindow};
use bevy_editor::selection::PointerId;
use bevy_editor::bootstrap::{config_name, config_name_from_pascal, system_config, SystemArg, SystemArgError};
use bevy_editor::camera::{fly_direction, viewport_fits, CameraButtons, CameraControl, FlyDirection};
use bevy_editor::explorer::{asset_path_components, is_hidden, labeled_payload, AssetRef, AssetRefPayload};
use bevy_editor::inspector::{
    component_matches_filter, filter_components, gizmo_targets, mark_selected, matches_folded,
    GizmoModes, GizmoState, InspectorSelection, InspectorState,
};
use bevy_editor::listing::{name_le_exec, sort_by_name, TypeEntry};
use bevy_editor::picking::{update_settings, EguiPickingSettings, GuiContext};
use bevy_editor::project::{
    contains_project, join, register_project, remove_projects, validate_projects, AppConfig,
    EditorPlugin, ProjectDir,
};
use bevy_editor::selected::SelectedEntities;
use bevy_editor::selection::{KeyCode, PickSelection, Selectable};

fn arg(name: &str, value: &str) -> SystemArg {
    SystemArg { name: name.to_string(), value: value.to_string() }
}

#[test]
fn system_attribute_arguments() {
    assert_eq!(system_config("spin", &vec![]).unwrap_err(), SystemArgError::ExpectedSchedule);
    assert_eq!(system_config("spin", &vec![arg("when", "Update")]).unwrap_err(), SystemArgError::ExpectedSchedule);
    assert_eq!(
        system_config("spin", &vec![arg("schedule", "Update"), arg("if", "x")]).unwrap_err(),
        SystemArgError::ExpectedConditions
    );
    let c = system_config("spin_cube", &vec![arg("schedule", "Update")]).unwrap();
    assert_eq!(c.config_name, "SpinCubeSystemConfig");
    assert_eq!(c.schedule, "Update");
    assert!(c.conditions.is_none());
    let c = system_config("spin", &vec![arg("schedule", "Startup"), arg("conditions", "run_once()")]).unwrap();
    assert_eq!(c.conditions.as_deref(), Some("run_once()"));
}

#[test]
fn config_names_use_pascal_case() {
    assert_eq!(config_name("move_player"), "MovePlayerSystemConfig");
    assert_eq!(config_name_from_pascal("Spin"), "SpinSystemConfig");
}

#[test]
fn component_filter_ignores_case() {
    assert!(component_matches_filter("bevy_transform::Transform", "TRANSFORM"));
    assert!(component_matches_filter("Name", ""));
    assert!(!component_matches_filter("Name", "Visibility"));
    assert!(matches_folded("transform", "form"));
    assert!(!matches_folded("transform", "FORM"));
    let names = vec!["Transform".to_string(), "Name".to_string(), "GlobalTransform".to_string()];
    assert_eq!(filter_components(&names, "transform"), vec![0, 2]);
}

#[test]
fn type_lists_sort_by_name() {
    let entries = vec![
        TypeEntry { name: "Time".to_string(), type_id: 1 },
        TypeEntry { name: "AmbientLight".to_string(), type_id: 2 },
        TypeEntry { name: "Time".to_string(), type_id: 3 },
        TypeEntry { name: "ClearColor".to_string(), type_id: 4 },
    ];
    let sorted = sort_by_name(&entries);
    let ids: Vec<u64> = sorted.iter().map(|e| e.type_id).collect();
    assert_eq!(ids, vec![2, 4, 1, 3]);
    assert!(name_le_exec("Ab", "Ab"));
    assert!(name_le_exec("A", "Ab"));
    assert!(!name_le_exec("b", "a"));
}

#[test]
fn inspector_selection_marks() {
    let r = InspectorSelection::Resource { type_id: 5, name: "Time".to_string() };
    assert!(r.is_resource_selected(5));
    assert!(!r.is_resource_selected(6));
    assert!(!r.is_asset_selected(5));
    let a = InspectorSelection::Asset { type_id: 1, name: "Mesh".to_string(), handle: 9 };
    assert!(a.is_asset_selected(9));
    let mut state = InspectorState::new();
    assert!(matches!(state.selection, InspectorSelection::Entities));
    assert_eq!(state.single_selected(), None);
    state.selected_entities.add(3);
    assert_eq!(state.single_selected(), Some(3));
    state.selected_entities.add(4);
    assert_eq!(state.single_selected(), None);
}

#[test]
fn gizmo_targets_stop_at_first_without_transform() {
    let mut s = SelectedEntities::new();
    s.add(1);
    s.add(2);
    s.add(3);
    assert_eq!(gizmo_targets(&s, &vec![true, false, true]), vec![1]);
    assert_eq!(gizmo_targets(&s, &vec![true, true, true]), vec![1, 2, 3]);
    assert!(gizmo_targets(&s, &vec![false, true, true]).is_empty());
}

#[test]
fn hierarchy_selection_sets_mirrors() {
    let mut s = SelectedEntities::new();
    s.add(2);
    let mut sel = vec![
        Selectable { entity: 1, selection: PickSelection { is_selected: true } },
        Selectable { entity: 2, selection: PickSelection { is_selected: false } },
        Selectable { entity: 3, selection: PickSelection { is_selected: false } },
    ];
    mark_selected(&mut sel, &s);
    assert!(!sel[0].selection.is_selected);
    assert!(sel[1].selection.is_selected);
    assert!(!sel[2].selection.is_selected);
}

#[test]
fn gizmo_mode_keys() {
    let mut g = GizmoState::new();
    assert_eq!(g.gizmo_modes, GizmoModes::all());
    g.set_gizmo_mode(&vec![KeyCode::KeyR]);
    assert_eq!(g.gizmo_modes, GizmoModes { rotate: true, translate: false, scale: false });
    g.set_gizmo_mode(&vec![KeyCode::KeyW]);
    assert_eq!(g.gizmo_modes, GizmoModes { rotate: true, translate: false, scale: false });
    g.set_gizmo_mode(&vec![KeyCode::KeyS, KeyCode::KeyT]);
    assert_eq!(g.gizmo_modes, GizmoModes { rotate: false, translate: false, scale: true });
}

#[test]
fn explorer_hides_project_internals() {
    assert!(is_hidden("target", None));
    assert!(is_hidden("Cargo.lock", Some("lock")));
    assert!(is_hidden("cube.glb.meta", Some("meta")));
    assert!(!is_hidden("cube.glb", Some("glb")));
    assert!(!is_hidden("src", None));
}

#[test]
fn explorer_asset_paths() {
    assert_eq!(labeled_payload("models/cube.glb", "Mesh0").0, "models/cube.glb#Mesh0");
    let path = vec!["p".to_string(), "assets".to_string(), "models".to_string(), "cube.glb".to_string()];
    let assets = vec!["p".to_string(), "assets".to_string()];
    assert_eq!(asset_path_components(&path, &assets), Some(vec!["models".to_string(), "cube.glb".to_string()]));
    assert_eq!(asset_path_components(&assets, &path), None);
}

#[test]
fn asset_ref_field() {
    let mut r = AssetRef::default();
    assert!(r.is_empty());
    assert!(r.get().is_none());
    assert!(!r.accept(None));
    assert!(r.accept(Some(AssetRefPayload("materials/test.mat".to_string()))));
    assert_eq!(r.get().map(|s| s.as_str()), Some("materials/test.mat"));
    r.validate(true);
    assert!(!r.is_empty());
    r.validate(false);
    assert!(r.is_empty());
    r.accept(Some(AssetRefPayload("x".to_string())));
    r.clear();
    assert!(r.is_empty());
}

#[test]
fn gui_picking_markers_follow_settings() {
    let mut contexts = vec![GuiContext { entity: 1, no_deselect: false }, GuiContext { entity: 2, no_deselect: true }];
    update_settings(&EguiPickingSettings { allow_deselect: true }, false, &mut contexts);
    assert!(!contexts[0].no_deselect && contexts[1].no_deselect);
    update_settings(&EguiPickingSettings::default(), true, &mut contexts);
    assert!(contexts.iter().all(|c| c.no_deselect));
    update_settings(&EguiPickingSettings { allow_deselect: true }, true, &mut contexts);
    assert!(contexts.iter().all(|c| !c.no_deselect));
}

#[test]
fn camera_modes_and_movement() {
    let mut c = CameraControl::default();
    c.update(CameraButtons { over_camera: false, middle_just_pressed: true, ..CameraButtons::default() });
    assert!(!c.is_pan);
    c.update(CameraButtons { over_camera: true, right_just_pressed: true, ..CameraButtons::default() });
    assert!(c.is_fly && c.cursor_locked());
    assert_eq!(
        fly_direction(&c, &vec![KeyCode::KeyW, KeyCode::KeyS, KeyCode::KeyD, KeyCode::KeyQ]),
        FlyDirection { forward: 1, right: 1, up: -1 }
    );
    assert_eq!(fly_direction(&c, &vec![KeyCode::KeyA, KeyCode::KeyD]), FlyDirection { forward: 0, right: -1, up: 0 });
    c.update(CameraButtons { right_just_released: true, ..CameraButtons::default() });
    assert!(!c.cursor_locked());
    assert_eq!(fly_direction(&c, &vec![KeyCode::KeyW]), FlyDirection { forward: 0, right: 0, up: 0 });
}

#[test]
fn viewport_must_fit_the_window() {
    assert!(viewport_fits(10, 10, 100, 50, 110, 60));
    assert!(!viewport_fits(10, 10, 101, 50, 110, 60));
    assert!(!viewport_fits(u32::MAX, 0, 1, 0, u32::MAX, 10));
}

#[test]
fn project_paths() {
    assert_eq!(join("/p", "assets"), "/p/assets");
    assert_eq!(join("/p/", "assets"), "/p/assets");
    assert_eq!(join("", "assets"), "assets");
    let dir = ProjectDir("/home/me/game".to_string());
    assert_eq!(dir.asset_dir(), "/home/me/game/assets");
    assert_eq!(dir.imported_asset_dir(), "/home/me/game/.bevy/imported");
    assert_eq!(dir.cache_dir(), "/home/me/game/.bevy");
    let plugin = EditorPlugin { project_dir: "g".to_string() };
    assert_eq!(plugin.asset_paths(), ("g/assets".to_string(), "g/.bevy/imported".to_string()));
}

#[test]
fn config_file_paths() {
    let c = AppConfig::new("bevy_hub");
    assert_eq!(c.name(), "bevy_hub");
    assert_eq!(c.config_file_name("projects"), "projects.ron");
    assert_eq!(c.get_config_path("/cfg", "window"), "/cfg/window.ron");
}

#[test]
fn project_list_maintenance() {
    let mut projects = vec!["/a".to_string(), "/b".to_string(), "/c".to_string()];
    validate_projects(&mut projects, &vec![true, false, true]);
    assert_eq!(projects, vec!["/a".to_string(), "/c".to_string()]);
    assert!(contains_project(&projects, &"/a".to_string()));
    assert!(!register_project(&mut projects, "/a".to_string(), true));
    assert!(!register_project(&mut projects, "/d".to_string(), false));
    assert!(register_project(&mut projects, "/d".to_string(), true));
    assert_eq!(projects.len(), 3);
    let mut to_remove = vec![0, 1];
    remove_projects(&mut projects, &mut to_remove);
    assert_eq!(projects, vec!["/c".to_string()]);
    assert!(to_remove.is_empty());
}

#[test]
fn inspector_view_follows_selection() {
    let mut state = InspectorState::new();
    assert_eq!(state.view(), InspectorView::SharedComponents(vec![]));
    state.selected_entities.add(8);
    assert_eq!(state.view(), InspectorView::Entity(8));
    state.selected_entities.add(9);
    assert_eq!(state.view(), InspectorView::SharedComponents(vec![8, 9]));
    state.selection = InspectorSelection::Resource { type_id: 4, name: "Time".to_string() };
    assert_eq!(state.view(), InspectorView::Resource(4));
    state.selection = InspectorSelection::Asset { type_id: 4, name: "Mesh".to_string(), handle: 12 };
    assert_eq!(state.view(), InspectorView::Asset(4, 12));
}

#[test]
fn gui_reports_hits_where_it_wants_the_pointer() {
    let pointers = vec![
        PointerOverWindow { pointer_id: PointerId::Mouse, window: Some(1) },
        PointerOverWindow { pointer_id: PointerId::Touch(2), window: Some(2) },
        PointerOverWindow { pointer_id: PointerId::Touch(3), window: None },
    ];
    let windows = vec![
        GuiWindow { window: 1, wants_pointer_input: true },
        GuiWindow { window: 2, wants_pointer_input: false },
    ];
    assert_eq!(egui_picking(&pointers, &windows), vec![(PointerId::Mouse, 1)]);
}

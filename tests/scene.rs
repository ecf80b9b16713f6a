use bevy_editor::editor::EditorState;
use bevy_editor::inspector::InspectorState;
use bevy_editor::scene::delete_selected;
use bevy_editor::scene::{
    active_scene_usable, build_scene, is_within, unload_scene, write_to_world, ComponentData,
    ComponentType, WorldEntity,
};
use bevy_editor::selected::SelectedEntities;

fn comp(ty: ComponentType, v: &str) -> ComponentData {
    ComponentData { ty, value: v.to_string(), entity_refs: vec![] }
}

fn world() -> Vec<WorldEntity> {
    vec![
        WorldEntity { id: 1, editor_only: true, components: vec![comp(ComponentType::Reflected(1), "camera")] },
        WorldEntity {
            id: 2,
            editor_only: false,
            components: vec![
                comp(ComponentType::Reflected(7), "(x: 1)"),
                comp(ComponentType::Mesh3d, "mesh"),
                comp(ComponentType::PickSelection, "(is_selected: true)"),
            ],
        },
        WorldEntity {
            id: 3,
            editor_only: false,
            components: vec![comp(ComponentType::MeshMaterial3d, "mat"), comp(ComponentType::Reflected(8), "name")],
        },
    ]
}

#[test]
fn snapshot_skips_editor_entities_and_render_components() {
    let scene = build_scene(&world());
    assert_eq!(scene.len(), 2);
    assert_eq!(scene[0].id, 2);
    assert_eq!(scene[0].components, vec![comp(ComponentType::Reflected(7), "(x: 1)")]);
    assert_eq!(scene[1].components, vec![comp(ComponentType::Reflected(8), "name")]);
}

#[test]
fn save_unload_load_round_trip() {
    let mut w = world();
    let scene = build_scene(&w);
    let mut selected = SelectedEntities::new();
    selected.add(2);
    unload_scene(&mut w, &mut selected);
    assert!(selected.is_empty());
    assert_eq!(w.len(), 1);
    assert_eq!(w[0].id, 1);
    let map = write_to_world(&mut w, &scene, 100);
    assert_eq!(map, vec![(2, 100), (3, 101)]);
    assert_eq!(w.len(), 3);
    assert_eq!(w[1].id, 100);
    assert!(!w[1].editor_only);
    assert_eq!(w[1].components, vec![comp(ComponentType::Reflected(7), "(x: 1)")]);
    assert_eq!(w[2].components, vec![comp(ComponentType::Reflected(8), "name")]);
    assert_eq!(build_scene(&w).len(), 2);
}

#[test]
fn active_scene_must_exist_inside_the_project() {
    let dir = vec!["home".to_string(), "p".to_string()];
    let inside = vec!["home".to_string(), "p".to_string(), "a.scn".to_string()];
    let outside = vec!["home".to_string(), "q".to_string(), "a.scn".to_string()];
    assert!(is_within(&inside, &dir));
    assert!(!is_within(&outside, &dir));
    assert!(!is_within(&dir[..1].to_vec(), &dir));
    assert!(active_scene_usable(&Some(inside.clone()), true, &dir));
    assert!(!active_scene_usable(&Some(inside), false, &dir));
    assert!(!active_scene_usable(&Some(outside), true, &dir));
    assert!(!active_scene_usable(&None, true, &dir));
}

#[test]
fn delete_selected_despawns_and_clears() {
    let mut w = world();
    let mut selected = SelectedEntities::new();
    selected.add(3);
    selected.add(42);
    delete_selected(&mut w, &mut selected);
    let ids: Vec<u64> = w.iter().map(|e| e.id).collect();
    assert_eq!(ids, vec![1, 2]);
    assert!(selected.is_empty());
}

#[test]
fn starting_a_compile_unloads_the_scene() {
    let mut editor = EditorState::new();
    assert!(editor.compilation.registration_type_ids.is_empty());
    assert_eq!(editor.compilation.animation_ms, 0);
    editor.compilation.finish_load(bevy_editor::compile::LibraryLoad::Registered { type_ids: vec![5], component_ids: vec![6] });
    let mut w = world();
    let mut inspector = InspectorState::new();
    inspector.selected_entities.add(2);
    let plan = editor.start_compile(&mut w, &mut inspector);
    assert_eq!(plan.unregister_type_ids, vec![5]);
    assert_eq!(plan.unregister_component_ids, vec![6]);
    assert!(plan.close_library);
    assert!(!plan.stop_running_build);
    let ids: Vec<u64> = w.iter().map(|e| e.id).collect();
    assert_eq!(ids, vec![1]);
    assert!(inspector.selected_entities.is_empty());
}

#[test]
fn load_remaps_references_between_saved_entities() {
    let w = vec![
        WorldEntity { id: 1, editor_only: true, components: vec![] },
        WorldEntity { id: 2, editor_only: false, components: vec![] },
        WorldEntity {
            id: 3,
            editor_only: false,
            components: vec![ComponentData {
                ty: ComponentType::Reflected(9),
                value: "(parent: 0)".to_string(),
                entity_refs: vec![2, 1, 3],
            }],
        },
    ];
    let scene = build_scene(&w);
    let mut target = Vec::new();
    let map = write_to_world(&mut target, &scene, 50);
    assert_eq!(map, vec![(2, 50), (3, 51)]);
    assert_eq!(target[1].components[0].entity_refs, vec![50, 1, 51]);
    assert_eq!(target[1].components[0].value, "(parent: 0)");
}

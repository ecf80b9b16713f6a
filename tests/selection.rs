use bevy_editor::selection::{add_selection, PickableCandidate};
use bevy_editor::selected::{handle_selection, SelectedEntities};
use bevy_editor::selection::{
    add_required_components, is_multiselect_pressed, multiselect_events, send_selection_events,
    update_state_from_events, Click, Down, KeyCode, PickSelection, Pointer, PointerAction,
    PointerButton, PointerId, PointerInput, PointerMultiselect, PointerState, Selectable,
    SelectionEvent, SelectionPluginSettings,
};

type Loc = (u32, u32);

fn selectable(entity: u64, is_selected: bool) -> Selectable {
    Selectable { entity, selection: PickSelection { is_selected } }
}

fn mouse(multi: bool, location: Option<Loc>) -> PointerState<Loc> {
    PointerState { id: PointerId::Mouse, multiselect: PointerMultiselect { is_pressed: multi }, location }
}

fn down(target: u64, button: PointerButton) -> Pointer<Down, Loc> {
    Pointer { target, pointer_id: PointerId::Mouse, pointer_location: (4, 5), event: Down { button } }
}

fn click(target: u64, button: PointerButton) -> Pointer<Click, Loc> {
    Pointer { target, pointer_id: PointerId::Mouse, pointer_location: (4, 5), event: Click { button } }
}

fn press() -> PointerInput {
    PointerInput { pointer_id: PointerId::Mouse, action: PointerAction::Pressed(PointerButton::Primary) }
}

fn summary(events: &[SelectionEvent<Loc>]) -> Vec<(bool, u64)> {
    events.iter().map(|e| (e.selects(), e.target())).collect()
}

fn flags(sel: &[Selectable]) -> Vec<bool> {
    sel.iter().map(|s| s.selection.is_selected).collect()
}

#[test]
fn settings_default_enables_everything() {
    let s = SelectionPluginSettings::default();
    assert!(s.is_enabled && s.click_nothing_deselect_all && s.use_multiselect_default_inputs);
    assert!(s.should_run());
    assert!(s.multiselect_should_run());
    let off = SelectionPluginSettings { is_enabled: false, ..SelectionPluginSettings::default() };
    assert!(!off.should_run());
    assert!(!off.multiselect_should_run());
}

#[test]
fn click_without_multiselect_selects_only_target() {
    let settings = SelectionPluginSettings::default();
    let mut sel = vec![selectable(1, true), selectable(2, true), selectable(3, false)];
    let events = send_selection_events(
        &settings,
        &vec![down(3, PointerButton::Primary)],
        &vec![press()],
        &vec![click(3, PointerButton::Primary)],
        &vec![mouse(false, Some((4, 5)))],
        &vec![],
        &sel,
    );
    assert_eq!(summary(&events), vec![(false, 1), (false, 2), (true, 3)]);
    let mut state = SelectedEntities::new();
    state.add(1);
    state.add(2);
    handle_selection(&mut state, &events);
    update_state_from_events(&mut sel, &events);
    assert_eq!(flags(&sel), vec![false, false, true]);
    assert_eq!(state.as_slice(), &[3]);
}

#[test]
fn click_on_sole_selection_sends_nothing() {
    let settings = SelectionPluginSettings::default();
    let sel = vec![selectable(1, true), selectable(2, false)];
    let events = send_selection_events(
        &settings,
        &vec![down(1, PointerButton::Primary)],
        &vec![press()],
        &vec![click(1, PointerButton::Primary)],
        &vec![mouse(false, Some((4, 5)))],
        &vec![],
        &sel,
    );
    assert!(events.is_empty());
}

#[test]
fn multiselect_click_toggles() {
    let settings = SelectionPluginSettings::default();
    let pointers = vec![mouse(true, Some((4, 5)))];
    let mut sel = vec![selectable(1, true), selectable(2, false)];
    let events = send_selection_events(
        &settings,
        &vec![down(2, PointerButton::Primary)],
        &vec![press()],
        &vec![click(2, PointerButton::Primary)],
        &pointers,
        &vec![],
        &sel,
    );
    assert_eq!(summary(&events), vec![(true, 2)]);
    update_state_from_events(&mut sel, &events);
    assert_eq!(flags(&sel), vec![true, true]);
    let events = send_selection_events(
        &settings,
        &vec![down(1, PointerButton::Primary)],
        &vec![press()],
        &vec![click(1, PointerButton::Primary)],
        &pointers,
        &vec![],
        &sel,
    );
    assert_eq!(summary(&events), vec![(false, 1)]);
    update_state_from_events(&mut sel, &events);
    assert_eq!(flags(&sel), vec![false, true]);
}

#[test]
fn empty_click_clears_three_entity_selection() {
    let settings = SelectionPluginSettings::default();
    let mut sel = vec![selectable(1, true), selectable(2, true), selectable(3, true)];
    let events = send_selection_events(
        &settings,
        &vec![],
        &vec![press()],
        &vec![],
        &vec![mouse(false, Some((9, 9)))],
        &vec![],
        &sel,
    );
    assert_eq!(summary(&events), vec![(false, 1), (false, 2), (false, 3)]);
    match &events[0] {
        SelectionEvent::Deselect(p) => assert_eq!(p.pointer_location, (9, 9)),
        SelectionEvent::Select(_) => panic!("expected a deselect"),
    }
    let mut state = SelectedEntities::new();
    state.add(1);
    state.add(2);
    state.add(3);
    update_state_from_events(&mut sel, &events);
    handle_selection(&mut state, &events);
    assert_eq!(flags(&sel), vec![false, false, false]);
    assert!(state.is_empty());
}

#[test]
fn empty_click_respects_setting_multiselect_and_location() {
    let sel = vec![selectable(1, true)];
    let off = SelectionPluginSettings { click_nothing_deselect_all: false, ..SelectionPluginSettings::default() };
    let e = send_selection_events(&off, &vec![], &vec![press()], &vec![], &vec![mouse(false, Some((1, 1)))], &vec![], &sel);
    assert!(e.is_empty());
    let on = SelectionPluginSettings::default();
    let e = send_selection_events(&on, &vec![], &vec![press()], &vec![], &vec![mouse(true, Some((1, 1)))], &vec![], &sel);
    assert!(e.is_empty());
    let e = send_selection_events(&on, &vec![], &vec![press()], &vec![], &vec![mouse(false, None)], &vec![], &sel);
    assert!(e.is_empty());
    let release = PointerInput { pointer_id: PointerId::Mouse, action: PointerAction::Released(PointerButton::Primary) };
    let e = send_selection_events(&on, &vec![], &vec![release], &vec![], &vec![mouse(false, Some((1, 1)))], &vec![], &sel);
    assert!(e.is_empty());
}

#[test]
fn no_deselect_target_keeps_others_selected() {
    let settings = SelectionPluginSettings::default();
    let sel = vec![selectable(1, true), selectable(7, false)];
    let events = send_selection_events(
        &settings,
        &vec![down(7, PointerButton::Primary)],
        &vec![press()],
        &vec![click(7, PointerButton::Primary)],
        &vec![mouse(false, Some((4, 5)))],
        &vec![7],
        &sel,
    );
    assert_eq!(summary(&events), vec![(true, 7)]);
}

#[test]
fn secondary_button_is_ignored() {
    let settings = SelectionPluginSettings::default();
    let sel = vec![selectable(1, true), selectable(2, false)];
    let events = send_selection_events(
        &settings,
        &vec![down(2, PointerButton::Secondary)],
        &vec![],
        &vec![click(2, PointerButton::Secondary)],
        &vec![mouse(false, Some((4, 5)))],
        &vec![],
        &sel,
    );
    assert!(events.is_empty());
}

#[test]
fn click_on_unpickable_entity_selects_nothing() {
    let settings = SelectionPluginSettings::default();
    let sel = vec![selectable(1, true)];
    let events = send_selection_events(
        &settings,
        &vec![down(5, PointerButton::Primary)],
        &vec![press()],
        &vec![click(5, PointerButton::Primary)],
        &vec![mouse(false, Some((4, 5)))],
        &vec![],
        &sel,
    );
    assert_eq!(summary(&events), vec![(false, 1)]);
}

#[test]
fn mirror_follows_last_event() {
    let mut sel = vec![selectable(1, false), selectable(2, true)];
    let p = |target: u64| Pointer { target, pointer_id: PointerId::Touch(3), pointer_location: (0u32, 0u32), event: bevy_editor::selection::Select };
    let q = |target: u64| Pointer { target, pointer_id: PointerId::Touch(3), pointer_location: (0u32, 0u32), event: bevy_editor::selection::Deselect };
    let events = vec![
        SelectionEvent::Select(p(1)),
        SelectionEvent::Deselect(q(1)),
        SelectionEvent::Deselect(q(2)),
        SelectionEvent::Select(p(2)),
    ];
    let mut state = SelectedEntities::new();
    state.add(2);
    update_state_from_events(&mut sel, &events);
    handle_selection(&mut state, &events);
    assert_eq!(flags(&sel), vec![false, true]);
    assert!(!state.contains(1));
    assert!(state.contains(2));
}

#[test]
fn multiselect_keys_set_every_pointer() {
    let mut pointers = vec![PointerMultiselect { is_pressed: false }, PointerMultiselect { is_pressed: true }];
    multiselect_events(&vec![KeyCode::KeyW, KeyCode::ShiftRight], &mut pointers);
    assert!(pointers.iter().all(|p| p.is_pressed));
    multiselect_events(&vec![KeyCode::KeyW, KeyCode::Other(12)], &mut pointers);
    assert!(pointers.iter().all(|p| !p.is_pressed));
    assert!(is_multiselect_pressed(&vec![KeyCode::ControlLeft]));
    assert!(!is_multiselect_pressed(&vec![]));
}

#[test]
fn pointers_get_default_multiselect() {
    let mut pointers = vec![None, Some(PointerMultiselect { is_pressed: true })];
    add_required_components(&mut pointers);
    assert_eq!(pointers, vec![Some(PointerMultiselect { is_pressed: false }), Some(PointerMultiselect { is_pressed: true })]);
}

#[test]
fn selected_entities_operations() {
    let mut s = SelectedEntities::new();
    s.add(4);
    s.add(5);
    s.add(4);
    assert_eq!(s.as_slice(), &[4, 5]);
    s.select_maybe_add(6, true);
    assert_eq!(s.as_slice(), &[4, 5, 6]);
    s.remove(5);
    assert_eq!(s.as_slice(), &[4, 6]);
    s.remove(9);
    assert_eq!(s.len(), 2);
    s.select_maybe_add(8, false);
    assert_eq!(s.as_slice(), &[8]);
    s.clear();
    assert!(s.is_empty());
}

#[test]
fn visible_entities_become_pickable() {
    let mut entities = vec![
        PickableCandidate { visible: true, selection: None },
        PickableCandidate { visible: false, selection: None },
        PickableCandidate { visible: true, selection: Some(PickSelection { is_selected: true }) },
    ];
    add_selection(&mut entities);
    assert_eq!(entities[0].selection, Some(PickSelection { is_selected: false }));
    assert_eq!(entities[1].selection, None);
    assert_eq!(entities[2].selection, Some(PickSelection { is_selected: true }));
}

use bevy_editor::compile::{
    compilation_message, CompileController, CompileStage, LibraryLoad, PollAction, ProcessStatus,
};

#[test]
fn compile_cycle_reaches_loaded_with_progress_dots() {
    let mut c = CompileController::new();
    assert_eq!(c.stage(), CompileStage::Idle);
    let plan = c.compile();
    assert!(plan.unregister_type_ids.is_empty());
    assert!(!plan.close_library);
    c.process_spawned(true);
    assert_eq!(c.stage(), CompileStage::Compiling);
    let mut dots = Vec::new();
    for _ in 0..10 {
        match c.poll(ProcessStatus::Running, 200) {
            PollAction::ShowProgress { dots: d } => dots.push(d),
            other => panic!("unexpected {:?}", other),
        }
    }
    assert_eq!(dots, vec![0, 0, 1, 1, 2, 2, 2, 3, 3, 0]);
    assert!(dots[..9].windows(2).all(|w| w[0] <= w[1]));
    assert!(dots.iter().all(|d| *d <= 3));
    assert_eq!(c.poll(ProcessStatus::Exited { success: true }, 16), PollAction::RestoreManifestAndLoad);
    assert_eq!(c.animation_ms, 0);
    c.finish_load(LibraryLoad::Registered { type_ids: vec![70, 71], component_ids: vec![9] });
    assert_eq!(c.stage(), CompileStage::Loaded);
    let plan = c.compile();
    assert_eq!(plan.unregister_type_ids, vec![70, 71]);
    assert_eq!(plan.unregister_component_ids, vec![9]);
    assert!(plan.close_library);
    assert!(c.registration_type_ids.is_empty());
    assert_eq!(c.stage(), CompileStage::Idle);
}

#[test]
fn failed_build_returns_to_idle() {
    let mut c = CompileController::new();
    c.compile();
    c.process_spawned(true);
    assert_eq!(c.poll(ProcessStatus::Running, 700), PollAction::ShowProgress { dots: 1 });
    assert_eq!(c.poll(ProcessStatus::Exited { success: false }, 16), PollAction::RestoreManifest);
    assert_eq!(c.stage(), CompileStage::Idle);
    assert_eq!(c.animation_ms, 0);
}

#[test]
fn wait_error_abandons_the_build() {
    let mut c = CompileController::new();
    c.process_spawned(true);
    assert_eq!(c.poll(ProcessStatus::WaitFailed, 16), PollAction::Abandon);
    assert_eq!(c.stage(), CompileStage::Idle);
    assert_eq!(c.poll(ProcessStatus::Running, 16), PollAction::Nothing);
}

#[test]
fn spawn_failure_stays_idle() {
    let mut c = CompileController::new();
    c.compile();
    c.process_spawned(false);
    assert_eq!(c.stage(), CompileStage::Idle);
    assert_eq!(c.poll(ProcessStatus::Running, 16), PollAction::Nothing);
}

#[test]
fn huge_frame_time_wraps_the_dots() {
    let mut c = CompileController::new();
    c.process_spawned(true);
    assert_eq!(c.poll(ProcessStatus::Running, u64::MAX), PollAction::ShowProgress { dots: 0 });
    assert_eq!(c.animation_ms, 0);
}

#[test]
fn library_without_entry_point_keeps_nothing_registered() {
    let mut c = CompileController::new();
    c.finish_load(LibraryLoad::SymbolMissing);
    assert_eq!(c.stage(), CompileStage::Loaded);
    let plan = c.compile();
    assert!(plan.unregister_type_ids.is_empty());
    assert!(plan.close_library);
    c.finish_load(LibraryLoad::LoadFailed);
    assert_eq!(c.stage(), CompileStage::Idle);
}

#[test]
fn progress_message_has_the_dots() {
    assert_eq!(compilation_message(0), "Compilation");
    assert_eq!(compilation_message(3), "Compilation...");
}

#[test]
fn compile_while_building_stops_the_old_build() {
    let mut c = CompileController::new();
    assert!(!c.compile().stop_running_build);
    c.process_spawned(true);
    let plan = c.compile();
    assert!(plan.stop_running_build);
    assert_eq!(c.stage(), CompileStage::Compiling);
}

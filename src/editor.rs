//! The editor's top-level state: its dock layout, its panels and its compile
//! controller.
use vstd::prelude::*;

use crate::codegen::views;
use crate::compile::{CompileController, CompileStage, TeardownPlan};
use crate::inspector::InspectorState;
use crate::scene::{editor_entities, unload_scene, world_view, WorldEntity};
use crate::dock::{is_standard, DockLayout};
use crate::panel::PanelRegistry;

verus! {

/// The editor's state.
#[derive(Debug)]
pub struct EditorState {
    pub docking: DockLayout,
    pub panels: PanelRegistry,
    pub compilation: CompileController,
}

impl EditorState {
    /// The standard layout, no panels yet, and nothing compiled.
    pub fn new() -> (r: Self)
        ensures
            is_standard(r.docking),
            r.panels@ == Seq::<crate::panel::PanelKind>::empty(),
            r.panels.wf(),
            r.compilation.wf(),
            r.compilation.spec_stage() == CompileStage::Idle,
            r.compilation.registration_type_ids@ == Seq::<u64>::empty(),
            r.compilation.registration_component_ids@ == Seq::<u64>::empty(),
            r.compilation.animation_ms == 0,
    {
        EditorState {
            docking: DockLayout::standard(),
            panels: PanelRegistry::new(),
            compilation: CompileController::new(),
        }
    }

    /// Starts a compile from the Compile action: unloads the scene (the
    /// selection is cleared and only the editor's own entities stay), then
    /// hands back what to tear down before the build is spawned.
    pub fn start_compile(&mut self, world: &mut Vec<WorldEntity>, inspector: &mut InspectorState) -> (plan: TeardownPlan)
        ensures
            world_view(final(world)@) == editor_entities(world_view(old(world)@)),
            final(inspector).selected_entities@ == Seq::<crate::selection::Entity>::empty(),
            final(inspector).selected_entities.wf(),
            plan.unregister_type_ids@ == old(self).compilation.registration_type_ids@,
            plan.unregister_component_ids@ == old(self).compilation.registration_component_ids@,
            plan.close_library == old(self).compilation.library_loaded,
            plan.stop_running_build == old(self).compilation.compiling,
            final(self).compilation.registration_type_ids@ == Seq::<u64>::empty(),
            final(self).compilation.registration_component_ids@ == Seq::<u64>::empty(),
            !final(self).compilation.library_loaded,
            final(self).compilation.compiling == old(self).compilation.compiling,
            final(self).compilation.animation_ms == old(self).compilation.animation_ms,
            final(self).docking == old(self).docking,
            final(self).panels == old(self).panels,
    {
        unload_scene(world, &mut inspector.selected_entities);
        self.compilation.compile()
    }

    /// Opens the panel `name` in a new floating window, as the View menu does.
    pub fn open_panel_window(&mut self, name: &String)
        ensures
            final(self).docking.main == old(self).docking.main,
            final(self).docking.tabs() == old(self).docking.tabs() + seq![name@],
            final(self).panels == old(self).panels,
    {
        let mut tabs: Vec<String> = Vec::new();
        tabs.push(name.clone());
        proof {
            assert(views(tabs@) =~= seq![name@]);
        }
        self.docking.add_window(tabs);
    }
}

} // verus!

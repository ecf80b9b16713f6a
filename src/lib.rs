//! Editor coordination layer: pointer selection, the selected-entity set, the
//! compile and hot-reload controller, the dock layout, scene snapshots and the
//! text generated for the companion project.
pub mod bootstrap;
pub mod camera;
pub mod codegen;
pub mod compile;
pub mod dock;
pub mod editor;
pub mod explorer;
pub mod inspector;
pub mod listing;
pub mod panel;
pub mod picking;
pub mod project;
pub mod scene;
pub mod selected;
pub mod selection;
pub mod text;

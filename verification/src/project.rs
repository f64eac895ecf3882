//! The project document model: host boards, firmware and PCB sources,
//! board/module/assembly definitions, their validation rules, host-pin
//! auto-binding and lexical path handling for saved documents.

pub mod error;
pub mod shared;
pub mod definitions;
pub mod assembly_bundle;
pub mod behavior_definition;
pub mod simulation_project;
pub mod document;
pub mod paths;
pub mod autobind;

//! The document kinds this library reads and writes, under one type.

use vstd::prelude::*;
use crate::project::assembly_bundle::{bundle_check, AssemblyBundle};
use crate::project::behavior_definition::{behavior_definition_check, BehaviorDefinition};
use crate::project::definitions::{
    assembly_definition_check, board_definition_check, module_definition_check, AssemblyDefinition,
    BoardDefinition, ModuleDefinition,
};
use crate::project::error::{outcome, ProjectError, ProjectErrorView};
use crate::project::simulation_project::{project_check, signal_views, SimulationProject};
use crate::text::views;

verus! {

/// Any document: the `kind` tag of its JSON form tells them apart.
#[derive(Debug, Clone)]
pub enum AvrSimDocument {
    SimulationProject(SimulationProject),
    BoardDefinition(BoardDefinition),
    ModuleDefinition(ModuleDefinition),
    AssemblyDefinition(AssemblyDefinition),
    AssemblyBundle(AssemblyBundle),
    BehaviorDefinition(BehaviorDefinition),
}

pub open spec fn spec_kind_name(d: AvrSimDocument) -> Seq<char> {
    match d {
        AvrSimDocument::SimulationProject(_) => "simulation_project"@,
        AvrSimDocument::BoardDefinition(_) => "board_definition"@,
        AvrSimDocument::ModuleDefinition(_) => "module_definition"@,
        AvrSimDocument::AssemblyDefinition(_) => "assembly_definition"@,
        AvrSimDocument::AssemblyBundle(_) => "assembly_bundle"@,
        AvrSimDocument::BehaviorDefinition(_) => "behavior_definition"@,
    }
}

pub open spec fn document_check(
    d: AvrSimDocument,
    known: Option<Seq<Seq<char>>>,
    models: Seq<Seq<char>>,
) -> Result<(), ProjectErrorView> {
    match d {
        AvrSimDocument::SimulationProject(p) => project_check(p, known, models),
        AvrSimDocument::BoardDefinition(b) => board_definition_check(b),
        AvrSimDocument::ModuleDefinition(m) => module_definition_check(m),
        AvrSimDocument::AssemblyDefinition(a) => assembly_definition_check(a),
        AvrSimDocument::AssemblyBundle(b) => bundle_check(b),
        AvrSimDocument::BehaviorDefinition(b) => behavior_definition_check(b),
    }
}

impl AvrSimDocument {
    /// The `kind` tag of the document's JSON form.
    pub fn kind_name(&self) -> (r: &'static str)
        ensures
            r@ == spec_kind_name(*self),
    {
        match self {
            AvrSimDocument::SimulationProject(_) => "simulation_project",
            AvrSimDocument::BoardDefinition(_) => "board_definition",
            AvrSimDocument::ModuleDefinition(_) => "module_definition",
            AvrSimDocument::AssemblyDefinition(_) => "assembly_definition",
            AvrSimDocument::AssemblyBundle(_) => "assembly_bundle",
            AvrSimDocument::BehaviorDefinition(_) => "behavior_definition",
        }
    }

    /// Validates the document it holds. A simulation project needs the
    /// host board's signal names and the built-in model names (see
    /// `SimulationProject::validate`); the other kinds ignore them.
    pub fn validate(&self, host_signals: Option<&Vec<String>>, module_models: &[String]) -> (r:
        Result<(), ProjectError>)
        ensures
            outcome(r) == document_check(*self, signal_views(host_signals), views(module_models@)),
    {
        match self {
            AvrSimDocument::SimulationProject(project) => project.validate(host_signals, module_models),
            AvrSimDocument::BoardDefinition(definition) => definition.validate(),
            AvrSimDocument::ModuleDefinition(definition) => definition.validate(),
            AvrSimDocument::AssemblyDefinition(definition) => definition.validate(),
            AvrSimDocument::AssemblyBundle(bundle) => bundle.validate(),
            AvrSimDocument::BehaviorDefinition(definition) => definition.validate(),
        }
    }

}

pub open spec fn unexpected(d: AvrSimDocument) -> ProjectErrorView {
    ProjectErrorView::UnexpectedDocumentKind(spec_kind_name(d))
}

impl AvrSimDocument {
    /// The simulation project this document holds; any other kind is
    /// reported by its kind name.
    pub fn into_simulation_project(self) -> (r: Result<SimulationProject, ProjectError>)
        ensures
            match self {
                AvrSimDocument::SimulationProject(p) => r == Ok::<SimulationProject, ProjectError>(p),
                _ => r matches Err(e) && e@ == unexpected(self),
            },
    {
        match self {
            AvrSimDocument::SimulationProject(project) => Ok(project),
            other => Err(ProjectError::UnexpectedDocumentKind(other.kind_name().to_string())),
        }
    }

    /// The board definition this document holds; any other kind is
    /// reported by its kind name.
    pub fn into_board_definition(self) -> (r: Result<BoardDefinition, ProjectError>)
        ensures
            match self {
                AvrSimDocument::BoardDefinition(d) => r == Ok::<BoardDefinition, ProjectError>(d),
                _ => r matches Err(e) && e@ == unexpected(self),
            },
    {
        match self {
            AvrSimDocument::BoardDefinition(definition) => Ok(definition),
            other => Err(ProjectError::UnexpectedDocumentKind(other.kind_name().to_string())),
        }
    }

    /// The module definition this document holds; any other kind is
    /// reported by its kind name.
    pub fn into_module_definition(self) -> (r: Result<ModuleDefinition, ProjectError>)
        ensures
            match self {
                AvrSimDocument::ModuleDefinition(d) => r == Ok::<ModuleDefinition, ProjectError>(d),
                _ => r matches Err(e) && e@ == unexpected(self),
            },
    {
        match self {
            AvrSimDocument::ModuleDefinition(definition) => Ok(definition),
            other => Err(ProjectError::UnexpectedDocumentKind(other.kind_name().to_string())),
        }
    }

    /// The assembly definition this document holds; any other kind is
    /// reported by its kind name.
    pub fn into_assembly_definition(self) -> (r: Result<AssemblyDefinition, ProjectError>)
        ensures
            match self {
                AvrSimDocument::AssemblyDefinition(d) => r == Ok::<AssemblyDefinition, ProjectError>(
                    d,
                ),
                _ => r matches Err(e) && e@ == unexpected(self),
            },
    {
        match self {
            AvrSimDocument::AssemblyDefinition(definition) => Ok(definition),
            other => Err(ProjectError::UnexpectedDocumentKind(other.kind_name().to_string())),
        }
    }

    /// The assembly bundle this document holds; any other kind is reported
    /// by its kind name.
    pub fn into_assembly_bundle(self) -> (r: Result<AssemblyBundle, ProjectError>)
        ensures
            match self {
                AvrSimDocument::AssemblyBundle(b) => r == Ok::<AssemblyBundle, ProjectError>(b),
                _ => r matches Err(e) && e@ == unexpected(self),
            },
    {
        match self {
            AvrSimDocument::AssemblyBundle(bundle) => Ok(bundle),
            other => Err(ProjectError::UnexpectedDocumentKind(other.kind_name().to_string())),
        }
    }

    /// The behavior definition this document holds; any other kind is
    /// reported by its kind name.
    pub fn into_behavior_definition(self) -> (r: Result<BehaviorDefinition, ProjectError>)
        ensures
            match self {
                AvrSimDocument::BehaviorDefinition(d) => r == Ok::<BehaviorDefinition, ProjectError>(
                    d,
                ),
                _ => r matches Err(e) && e@ == unexpected(self),
            },
    {
        match self {
            AvrSimDocument::BehaviorDefinition(definition) => Ok(definition),
            other => Err(ProjectError::UnexpectedDocumentKind(other.kind_name().to_string())),
        }
    }
}

} // verus!

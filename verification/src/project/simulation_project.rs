//! A simulation project: a host board running firmware, wired to a KiCad
//! board, with module overlays, probes and stimuli.

use vstd::prelude::*;
use crate::project::definitions::{
    optional_reference_check, then_check, validate_optional_reference, DefinitionReference,
};
use crate::project::error::{outcome, ProjectError, ProjectErrorView};
use crate::project::shared::{
    host_bindings_check, overlays_check, spec_host_board_model, validate_host_board_signal_bindings,
    validate_module_overlays, FirmwareSource, HostBoard, ModuleOverlay, PcbSource, ProbeSpec,
    SignalBinding, StimulusSpec, PROJECT_FORMAT_VERSION,
};
use crate::text::{is_blank, owned, spec_is_blank, views};

verus! {

#[derive(Debug, Clone)]
pub struct SimulationProject {
    pub format_version: String,
    pub name: String,
    pub description: Option<String>,
    pub host_board: HostBoard,
    pub firmware: FirmwareSource,
    pub pcb: PcbSource,
    pub root_assembly: Option<DefinitionReference>,
    pub module_overlays: Vec<ModuleOverlay>,
    pub bindings: Vec<SignalBinding>,
    pub probes: Vec<ProbeSpec>,
    pub stimuli: Vec<StimulusSpec>,
}

/// The signal names of a host board's built-in model, if it could be loaded.
pub open spec fn signal_views(known: Option<&Vec<String>>) -> Option<Seq<Seq<char>>> {
    match known {
        Some(v) => Some(views(v@)),
        None => None,
    }
}

/// The rule a project breaks, if any, given the signals of its host board's
/// model (`None` when that model is missing) and the built-in model names.
pub open spec fn project_check(
    p: SimulationProject,
    known: Option<Seq<Seq<char>>>,
    models: Seq<Seq<char>>,
) -> Result<(), ProjectErrorView> {
    if spec_is_blank(p.name@) {
        Err(ProjectErrorView::EmptyName("project"@))
    } else if p.firmware.path@.len() == 0 {
        Err(ProjectErrorView::MissingFirmwarePath)
    } else if p.pcb.path@.len() == 0 {
        Err(ProjectErrorView::MissingPcbPath)
    } else {
        then_check(
            optional_reference_check(p.root_assembly),
            then_check(
                match known {
                    None => Err(ProjectErrorView::UnknownBoardModel(spec_host_board_model(p.host_board))),
                    Some(k) => host_bindings_check(k, p.bindings@, 0),
                },
                overlays_check(models, p.module_overlays@, 0),
            ),
        )
    }
}

impl SimulationProject {
    pub fn new(name: &str, host_board: HostBoard, firmware: FirmwareSource, pcb: PcbSource) -> (r:
        Self)
        ensures
            r.format_version@ == PROJECT_FORMAT_VERSION@,
            r.name@ == name@,
            r.description is None,
            r.host_board == host_board,
            r.firmware == firmware,
            r.pcb == pcb,
            r.root_assembly is None,
            r.module_overlays@.len() == 0,
            r.bindings@.len() == 0,
            r.probes@.len() == 0,
            r.stimuli@.len() == 0,
    {
        SimulationProject {
            format_version: owned(PROJECT_FORMAT_VERSION),
            name: owned(name),
            description: None,
            host_board,
            firmware,
            pcb,
            root_assembly: None,
            module_overlays: Vec::new(),
            bindings: Vec::new(),
            probes: Vec::new(),
            stimuli: Vec::new(),
        }
    }

    /// Validates the project. `host_signals` are the net names of the host
    /// board's built-in model (`None` if it could not be loaded) and
    /// `module_models` the names of all built-in models.
    pub fn validate(&self, host_signals: Option<&Vec<String>>, module_models: &[String]) -> (r:
        Result<(), ProjectError>)
        ensures
            outcome(r) == project_check(*self, signal_views(host_signals), views(module_models@)),
    {
        if is_blank(self.name.as_str()) {
            return Err(ProjectError::EmptyName("project"));
        }
        match self.firmware.validate() {
            Err(e) => {
                return Err(e);
            },
            Ok(()) => {},
        }
        match self.pcb.validate() {
            Err(e) => {
                return Err(e);
            },
            Ok(()) => {},
        }
        match validate_optional_reference(&self.root_assembly) {
            Err(e) => {
                return Err(e);
            },
            Ok(()) => {},
        }
        match validate_host_board_signal_bindings(
            self.host_board,
            host_signals,
            self.bindings.as_slice(),
        ) {
            Err(e) => {
                return Err(e);
            },
            Ok(()) => {},
        }
        validate_module_overlays(module_models, self.module_overlays.as_slice())
    }
}

} // verus!

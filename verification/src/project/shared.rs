//! Types shared by every project document: host boards, firmware and PCB
//! sources, signal bindings, module overlays, probes and stimuli, and the
//! validation of host-board bindings and module overlays.

use vstd::prelude::*;
use crate::project::error::{outcome, ProjectError, ProjectErrorView};
use crate::text::{contains_str, is_blank, spec_is_blank, spec_starts_with, str_starts_with,
    chars_of, views};

verus! {

/// Version written into every document this library creates.
pub const PROJECT_FORMAT_VERSION: &'static str = "0.3.0";

/// The controller board a simulation runs on.
#[derive(Debug, Clone, Copy, PartialEq, Eq, Structural)]
pub enum HostBoard {
    NanoV3,
    Mega2560Rev3,
}

pub open spec fn spec_host_board_label(board: HostBoard) -> Seq<char> {
    match board {
        HostBoard::NanoV3 => "Arduino Nano (ATmega328P)"@,
        HostBoard::Mega2560Rev3 => "Arduino Mega 2560"@,
    }
}

pub open spec fn spec_host_board_fqbn(board: HostBoard) -> Seq<char> {
    match board {
        HostBoard::NanoV3 => "arduino:avr:nano:cpu=atmega328old"@,
        HostBoard::Mega2560Rev3 => "arduino:avr:mega"@,
    }
}

pub open spec fn spec_host_board_short_name(board: HostBoard) -> Seq<char> {
    match board {
        HostBoard::NanoV3 => "nano"@,
        HostBoard::Mega2560Rev3 => "mega"@,
    }
}

pub open spec fn spec_host_board_model(board: HostBoard) -> Seq<char> {
    match board {
        HostBoard::NanoV3 => "arduino_nano_v3"@,
        HostBoard::Mega2560Rev3 => "arduino_mega_2560_rev3"@,
    }
}

impl HostBoard {
    /// Every host board, the Mega first.
    pub const ALL: [HostBoard; 2] = [HostBoard::Mega2560Rev3, HostBoard::NanoV3];

    /// The name shown to users.
    pub fn label(self) -> (r: &'static str)
        ensures
            r@ == spec_host_board_label(self),
    {
        match self {
            HostBoard::NanoV3 => "Arduino Nano (ATmega328P)",
            HostBoard::Mega2560Rev3 => "Arduino Mega 2560",
        }
    }

    /// The Arduino fully qualified board name used to compile for it.
    pub fn fqbn(self) -> (r: &'static str)
        ensures
            r@ == spec_host_board_fqbn(self),
    {
        match self {
            HostBoard::NanoV3 => "arduino:avr:nano:cpu=atmega328old",
            HostBoard::Mega2560Rev3 => "arduino:avr:mega",
        }
    }

    /// The short name accepted on command lines.
    pub fn short_name(self) -> (r: &'static str)
        ensures
            r@ == spec_host_board_short_name(self),
    {
        match self {
            HostBoard::NanoV3 => "nano",
            HostBoard::Mega2560Rev3 => "mega",
        }
    }

    /// The name of the built-in board model that describes its nets.
    pub fn builtin_board_model(self) -> (r: &'static str)
        ensures
            r@ == spec_host_board_model(self),
    {
        match self {
            HostBoard::NanoV3 => "arduino_nano_v3",
            HostBoard::Mega2560Rev3 => "arduino_mega_2560_rev3",
        }
    }
}

impl Default for HostBoard {
    fn default() -> (r: Self)
        ensures
            r == HostBoard::Mega2560Rev3,
    {
        HostBoard::Mega2560Rev3
    }
}

#[derive(Debug, Clone, Copy, PartialEq, Eq, Structural)]
pub enum FirmwareSourceKind {
    Ino,
    Hex,
}

/// The firmware a simulation runs: a sketch or an Intel HEX image.
#[derive(Debug, Clone)]
pub struct FirmwareSource {
    pub kind: FirmwareSourceKind,
    pub path: String,
    pub compiled_hex_path: Option<String>,
}

impl FirmwareSource {
    /// Rejects an empty path.
    pub fn validate(&self) -> (r: Result<(), ProjectError>)
        ensures
            outcome(r) == (if self.path@.len() == 0 {
                Err(ProjectErrorView::MissingFirmwarePath)
            } else {
                Ok(())
            }),
    {
        if self.path.as_str().unicode_len() == 0 {
            return Err(ProjectError::MissingFirmwarePath);
        }
        Ok(())
    }
}

/// The KiCad board a simulation is wired to.
#[derive(Debug, Clone)]
pub struct PcbSource {
    pub path: String,
    pub board_name_hint: Option<String>,
}

impl PcbSource {
    /// Rejects an empty path.
    pub fn validate(&self) -> (r: Result<(), ProjectError>)
        ensures
            outcome(r) == (if self.path@.len() == 0 {
                Err(ProjectErrorView::MissingPcbPath)
            } else {
                Ok(())
            }),
    {
        if self.path.as_str().unicode_len() == 0 {
            return Err(ProjectError::MissingPcbPath);
        }
        Ok(())
    }
}

#[derive(Debug, Clone, Copy, PartialEq, Eq, Structural)]
pub enum BindingMode {
    Auto,
    Digital,
    Analog,
    Power,
    Bus,
}

/// A host-board signal wired to a PCB net.
#[derive(Debug, Clone)]
pub struct SignalBinding {
    pub board_signal: String,
    pub pcb_net: String,
    pub mode: BindingMode,
    pub note: Option<String>,
}

/// A module signal wired to a PCB net.
#[derive(Debug, Clone)]
pub struct ModuleSignalBinding {
    pub module_signal: String,
    pub pcb_net: String,
    pub mode: BindingMode,
    pub note: Option<String>,
}

/// A built-in module model placed on the PCB, with its wiring.
#[derive(Debug, Clone)]
pub struct ModuleOverlay {
    pub name: String,
    pub model: String,
    pub bindings: Vec<ModuleSignalBinding>,
}

#[derive(Debug, Clone, Copy, PartialEq, Eq, Structural)]
pub enum ProbeKind {
    Digital,
    Analog,
    Serial,
    Bus,
}

#[derive(Debug, Clone)]
pub struct ProbeSpec {
    pub name: String,
    pub pcb_net: String,
    pub kind: ProbeKind,
}

#[derive(Debug, Clone, Copy, PartialEq, Eq, Structural)]
pub enum StimulusKind {
    DigitalHigh,
    DigitalLow,
    AnalogVoltage,
    PulseTrain,
}

/// A signal driven onto a PCB net. `value` holds the IEEE-754 bit pattern
/// of the stimulus' floating-point value, which no rule here inspects.
#[derive(Debug, Clone)]
pub struct StimulusSpec {
    pub name: String,
    pub pcb_net: String,
    pub kind: StimulusKind,
    pub value: Option<u64>,
}

// ---------------------------------------------------------------------------
// Host-board bindings
// ---------------------------------------------------------------------------

/// The host-board signals named by the bindings.
pub open spec fn bound_signals(b: Seq<SignalBinding>) -> Seq<Seq<char>> {
    b.map_values(|x: SignalBinding| x.board_signal@)
}

/// The first rule that binding `i` or a later one breaks: an empty PCB
/// net, a signal the board does not have, or a signal bound twice.
pub open spec fn host_bindings_check(
    known: Seq<Seq<char>>,
    b: Seq<SignalBinding>,
    i: int,
) -> Result<(), ProjectErrorView>
    decreases b.len() - i,
{
    if i < 0 || i >= b.len() {
        Ok(())
    } else if spec_is_blank(b[i].pcb_net@) {
        Err(ProjectErrorView::EmptyPcbNet(b[i].board_signal@))
    } else if !known.contains(b[i].board_signal@) {
        Err(ProjectErrorView::UnknownBoardSignal(b[i].board_signal@))
    } else if bound_signals(b.take(i)).contains(b[i].board_signal@) {
        Err(ProjectErrorView::DuplicateBoardSignal(b[i].board_signal@))
    } else {
        host_bindings_check(known, b, i + 1)
    }
}

/// Checks host-board bindings against the signals of the board's built-in
/// model. `known_signals` is `None` when that model could not be loaded.
pub fn validate_host_board_signal_bindings(
    host_board: HostBoard,
    known_signals: Option<&Vec<String>>,
    bindings: &[SignalBinding],
) -> (r: Result<(), ProjectError>)
    ensures
        outcome(r) == (match known_signals {
            None => Err(ProjectErrorView::UnknownBoardModel(spec_host_board_model(host_board))),
            Some(known) => host_bindings_check(views(known@), bindings@, 0),
        }),
{
    let known = match known_signals {
        None => {
            return Err(ProjectError::UnknownBoardModel(host_board.builtin_board_model().to_string()));
        },
        Some(known) => known,
    };
    let mut seen: Vec<String> = Vec::new();
    let mut i: usize = 0;
    while i < bindings.len()
        invariant
            known_signals == Some(known),
            i <= bindings@.len(),
            views(seen@) == bound_signals(bindings@.take(i as int)),
            host_bindings_check(views(known@), bindings@, 0) == host_bindings_check(
                views(known@),
                bindings@,
                i as int,
            ),
        decreases bindings.len() - i,
    {
        let binding = &bindings[i];
        if is_blank(binding.pcb_net.as_str()) {
            return Err(ProjectError::EmptyPcbNet(binding.board_signal.clone()));
        }
        if !contains_str(known.as_slice(), binding.board_signal.as_str()) {
            return Err(ProjectError::UnknownBoardSignal(binding.board_signal.clone()));
        }
        if contains_str(seen.as_slice(), binding.board_signal.as_str()) {
            return Err(ProjectError::DuplicateBoardSignal(binding.board_signal.clone()));
        }
        let ghost before = seen@;
        seen.push(binding.board_signal.clone());
        assert(views(seen@) =~= views(before).push(bindings@[i as int].board_signal@));
        assert(bindings@.take(i + 1) =~= bindings@.take(i as int).push(bindings@[i as int]));
        assert(bound_signals(bindings@.take(i + 1)) =~= bound_signals(bindings@.take(i as int)).push(bindings@[i as int].board_signal@));
        i = i + 1;
    }
    Ok(())
}

// ---------------------------------------------------------------------------
// Module overlays
// ---------------------------------------------------------------------------

/// A built-in model that a module overlay may use: any but the host boards.
pub open spec fn module_model_available(models: Seq<Seq<char>>, model: Seq<char>) -> bool {
    models.contains(model) && !spec_starts_with(model, "arduino_"@)
}

pub open spec fn overlay_names(o: Seq<ModuleOverlay>) -> Seq<Seq<char>> {
    o.map_values(|x: ModuleOverlay| x.name@)
}

pub open spec fn module_signals(b: Seq<ModuleSignalBinding>) -> Seq<Seq<char>> {
    b.map_values(|x: ModuleSignalBinding| x.module_signal@)
}

/// The first rule that binding `j` or a later one of an overlay breaks.
pub open spec fn overlay_bindings_check(
    name: Seq<char>,
    b: Seq<ModuleSignalBinding>,
    j: int,
) -> Result<(), ProjectErrorView>
    decreases b.len() - j,
{
    if j < 0 || j >= b.len() {
        Ok(())
    } else if spec_is_blank(b[j].module_signal@) {
        Err(ProjectErrorView::EmptyModuleSignal(name))
    } else if spec_is_blank(b[j].pcb_net@) {
        Err(ProjectErrorView::EmptyPcbNet(b[j].module_signal@))
    } else if module_signals(b.take(j)).contains(b[j].module_signal@) {
        Err(ProjectErrorView::DuplicateModuleSignal(name, b[j].module_signal@))
    } else {
        overlay_bindings_check(name, b, j + 1)
    }
}

/// The first rule that overlay `i` or a later one breaks.
pub open spec fn overlays_check(
    models: Seq<Seq<char>>,
    o: Seq<ModuleOverlay>,
    i: int,
) -> Result<(), ProjectErrorView>
    decreases o.len() - i,
{
    if i < 0 || i >= o.len() {
        Ok(())
    } else if spec_is_blank(o[i].name@) {
        Err(ProjectErrorView::EmptyName("module overlay"@))
    } else if overlay_names(o.take(i)).contains(o[i].name@) {
        Err(ProjectErrorView::DuplicateModuleOverlay(o[i].name@))
    } else if !module_model_available(models, o[i].model@) {
        Err(ProjectErrorView::UnknownModuleModel(o[i].model@))
    } else if overlay_bindings_check(o[i].name@, o[i].bindings@, 0) is Err {
        overlay_bindings_check(o[i].name@, o[i].bindings@, 0)
    } else {
        overlays_check(models, o, i + 1)
    }
}

fn validate_overlay_bindings(overlay: &ModuleOverlay) -> (r: Result<(), ProjectError>)
    ensures
        outcome(r) == overlay_bindings_check(overlay.name@, overlay.bindings@, 0),
{
    let bindings = &overlay.bindings;
    let mut seen: Vec<String> = Vec::new();
    let mut j: usize = 0;
    while j < bindings.len()
        invariant
            bindings@ == overlay.bindings@,
            j <= bindings@.len(),
            views(seen@) == module_signals(bindings@.take(j as int)),
            overlay_bindings_check(overlay.name@, bindings@, 0) == overlay_bindings_check(
                overlay.name@,
                bindings@,
                j as int,
            ),
        decreases bindings.len() - j,
    {
        let binding = &bindings[j];
        if is_blank(binding.module_signal.as_str()) {
            return Err(ProjectError::EmptyModuleSignal(overlay.name.clone()));
        }
        if is_blank(binding.pcb_net.as_str()) {
            return Err(ProjectError::EmptyPcbNet(binding.module_signal.clone()));
        }
        if contains_str(seen.as_slice(), binding.module_signal.as_str()) {
            return Err(
                ProjectError::DuplicateModuleSignal {
                    module_name: overlay.name.clone(),
                    signal: binding.module_signal.clone(),
                },
            );
        }
        let ghost before = seen@;
        seen.push(binding.module_signal.clone());
        assert(views(seen@) =~= views(before).push(bindings@[j as int].module_signal@));
        assert(bindings@.take(j + 1) =~= bindings@.take(j as int).push(bindings@[j as int]));
        assert(module_signals(bindings@.take(j + 1)) =~= module_signals(bindings@.take(j as int)).push(bindings@[j as int].module_signal@));
        j = j + 1;
    }
    Ok(())
}

/// Whether `model` is among the built-in models a module overlay may use.
fn model_available(model_names: &[String], model: &str) -> (r: bool)
    ensures
        r == module_model_available(views(model_names@), model@),
{
    let chars = chars_of(model);
    contains_str(model_names, model) && !str_starts_with(&chars, "arduino_")
}

/// Checks module overlays: non-empty unique names, a model among the
/// built-in model names `model_names` that is not a host board, and
/// well-formed, non-repeating signal bindings.
pub fn validate_module_overlays(model_names: &[String], overlays: &[ModuleOverlay]) -> (r: Result<
    (),
    ProjectError,
>)
    ensures
        outcome(r) == overlays_check(views(model_names@), overlays@, 0),
{
    let mut seen: Vec<String> = Vec::new();
    let mut i: usize = 0;
    while i < overlays.len()
        invariant
            i <= overlays@.len(),
            views(seen@) == overlay_names(overlays@.take(i as int)),
            overlays_check(views(model_names@), overlays@, 0) == overlays_check(
                views(model_names@),
                overlays@,
                i as int,
            ),
        decreases overlays.len() - i,
    {
        let overlay = &overlays[i];
        if is_blank(overlay.name.as_str()) {
            return Err(ProjectError::EmptyName("module overlay"));
        }
        if contains_str(seen.as_slice(), overlay.name.as_str()) {
            return Err(ProjectError::DuplicateModuleOverlay(overlay.name.clone()));
        }
        if !model_available(model_names, overlay.model.as_str()) {
            return Err(ProjectError::UnknownModuleModel(overlay.model.clone()));
        }
        match validate_overlay_bindings(overlay) {
            Err(e) => {
                return Err(e);
            },
            Ok(()) => {},
        }
        let ghost before = seen@;
        seen.push(overlay.name.clone());
        assert(views(seen@) =~= views(before).push(overlays@[i as int].name@));
        assert(overlays@.take(i + 1) =~= overlays@.take(i as int).push(overlays@[i as int]));
        assert(overlay_names(overlays@.take(i + 1)) =~= overlay_names(overlays@.take(i as int)).push(overlays@[i as int].name@));
        i = i + 1;
    }
    Ok(())
}

} // verus!

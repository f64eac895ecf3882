//! Board, module and assembly definitions and the rules that make them
//! well formed: named, with a consistent source, unique port names, and
//! attachments and exports that only name ports that exist.

use vstd::prelude::*;
use crate::project::error::{outcome, ProjectError, ProjectErrorView};
use crate::project::shared::{BindingMode, FirmwareSource, HostBoard, PROJECT_FORMAT_VERSION};
use crate::text::{concat2, contains_str, is_blank, owned, spec_is_blank, str_eq, views};

verus! {

/// `first` if it is an error, else `second`: the first rule broken.
pub open spec fn then_check(
    first: Result<(), ProjectErrorView>,
    second: Result<(), ProjectErrorView>,
) -> Result<(), ProjectErrorView> {
    match first {
        Err(e) => Err(e),
        Ok(()) => second,
    }
}

/// What an optional firmware source adds to a validation.
pub open spec fn firmware_check(f: Option<FirmwareSource>) -> Result<(), ProjectErrorView> {
    match f {
        Some(f) => if f.path@.len() == 0 {
            Err(ProjectErrorView::MissingFirmwarePath)
        } else {
            Ok(())
        },
        None => Ok(()),
    }
}

fn validate_optional_firmware(f: &Option<FirmwareSource>) -> (r: Result<(), ProjectError>)
    ensures
        outcome(r) == firmware_check(*f),
{
    match f {
        Some(firmware) => firmware.validate(),
        None => Ok(()),
    }
}

// ---------------------------------------------------------------------------
// Definition sources
// ---------------------------------------------------------------------------

#[derive(Debug, Clone, Copy, PartialEq, Eq, Structural)]
pub enum DefinitionSourceKind {
    BuiltinBoardModel,
    KicadPcb,
    Virtual,
}

/// Where a definition's layout comes from.
#[derive(Debug, Clone)]
pub struct DefinitionSource {
    pub kind: DefinitionSourceKind,
    pub path: Option<String>,
    pub builtin_name: Option<String>,
}

pub open spec fn missing_or_blank(v: Option<String>) -> bool {
    match v {
        None => true,
        Some(s) => spec_is_blank(s@),
    }
}

pub open spec fn missing_or_empty(v: Option<String>) -> bool {
    match v {
        None => true,
        Some(s) => s@.len() == 0,
    }
}

/// The rule a definition source owned by `owner` breaks, if any.
pub open spec fn source_check(s: DefinitionSource, owner: Seq<char>) -> Result<
    (),
    ProjectErrorView,
> {
    match s.kind {
        DefinitionSourceKind::BuiltinBoardModel => if missing_or_blank(s.builtin_name) {
            Err(ProjectErrorView::MissingDefinitionSource(owner))
        } else if s.path is Some {
            Err(
                ProjectErrorView::InvalidDefinitionSource(
                    owner + " uses builtin_board_model source but also has a path"@,
                ),
            )
        } else {
            Ok(())
        },
        DefinitionSourceKind::KicadPcb => if missing_or_empty(s.path) {
            Err(ProjectErrorView::MissingDefinitionSource(owner))
        } else if s.builtin_name is Some {
            Err(
                ProjectErrorView::InvalidDefinitionSource(
                    owner + " uses kicad_pcb source but also has a builtin name"@,
                ),
            )
        } else {
            Ok(())
        },
        DefinitionSourceKind::Virtual => if s.path is Some || s.builtin_name is Some {
            Err(
                ProjectErrorView::InvalidDefinitionSource(
                    owner + " uses virtual source but also specifies an external source"@,
                ),
            )
        } else {
            Ok(())
        },
    }
}

impl DefinitionSource {
    pub fn builtin_board_model(name: &str) -> (r: Self)
        ensures
            r.kind == DefinitionSourceKind::BuiltinBoardModel,
            r.path is None,
            r.builtin_name matches Some(n) && n@ == name@,
    {
        DefinitionSource {
            kind: DefinitionSourceKind::BuiltinBoardModel,
            path: None,
            builtin_name: Some(owned(name)),
        }
    }

    pub fn kicad_pcb(path: &str) -> (r: Self)
        ensures
            r.kind == DefinitionSourceKind::KicadPcb,
            r.path matches Some(p) && p@ == path@,
            r.builtin_name is None,
    {
        DefinitionSource { kind: DefinitionSourceKind::KicadPcb, path: Some(owned(path)), builtin_name: None }
    }

    pub fn virtual_only() -> (r: Self)
        ensures
            r.kind == DefinitionSourceKind::Virtual,
            r.path is None,
            r.builtin_name is None,
    {
        DefinitionSource { kind: DefinitionSourceKind::Virtual, path: None, builtin_name: None }
    }

    /// A built-in source names a model and no path, a KiCad source a path
    /// and no model name, a virtual source neither.
    pub fn validate(&self, owner: &str) -> (r: Result<(), ProjectError>)
        ensures
            outcome(r) == source_check(*self, owner@),
    {
        match self.kind {
            DefinitionSourceKind::BuiltinBoardModel => {
                let missing = match &self.builtin_name {
                    None => true,
                    Some(name) => is_blank(name.as_str()),
                };
                if missing {
                    return Err(ProjectError::MissingDefinitionSource(owned(owner)));
                }
                if self.path.is_some() {
                    return Err(
                        ProjectError::InvalidDefinitionSource(
                            concat2(owner, " uses builtin_board_model source but also has a path"),
                        ),
                    );
                }
            },
            DefinitionSourceKind::KicadPcb => {
                let missing = match &self.path {
                    None => true,
                    Some(path) => path.as_str().unicode_len() == 0,
                };
                if missing {
                    return Err(ProjectError::MissingDefinitionSource(owned(owner)));
                }
                if self.builtin_name.is_some() {
                    return Err(
                        ProjectError::InvalidDefinitionSource(
                            concat2(owner, " uses kicad_pcb source but also has a builtin name"),
                        ),
                    );
                }
            },
            DefinitionSourceKind::Virtual => {
                if self.path.is_some() || self.builtin_name.is_some() {
                    return Err(
                        ProjectError::InvalidDefinitionSource(
                            concat2(
                                owner,
                                " uses virtual source but also specifies an external source",
                            ),
                        ),
                    );
                }
            },
        }
        Ok(())
    }
}

// ---------------------------------------------------------------------------
// Ports
// ---------------------------------------------------------------------------

#[derive(Debug, Clone, Copy, PartialEq, Eq, Structural)]
pub enum PortDirection {
    Input,
    Output,
    Bidirectional,
    Passive,
}

#[derive(Debug, Clone, Copy, PartialEq, Eq, Structural)]
pub enum PortClass {
    Digital,
    Analog,
    Power,
    Bus,
    Passive,
}

/// A named connection point of a board or module.
#[derive(Debug, Clone)]
pub struct PortDefinition {
    pub name: String,
    pub class: PortClass,
    pub direction: PortDirection,
    pub aliases: Vec<String>,
    pub note: Option<String>,
}

impl PortDefinition {
    pub fn new(name: &str, class: PortClass, direction: PortDirection) -> (r: Self)
        ensures
            r.name@ == name@,
            r.class == class,
            r.direction == direction,
            r.aliases@.len() == 0,
            r.note is None,
    {
        PortDefinition { name: owned(name), class, direction, aliases: Vec::new(), note: None }
    }

    /// A port needs a non-blank name.
    pub fn validate(&self) -> (r: Result<(), ProjectError>)
        ensures
            outcome(r) == (if spec_is_blank(self.name@) {
                Err(ProjectErrorView::EmptyPortName)
            } else {
                Ok(())
            }),
    {
        if is_blank(self.name.as_str()) {
            return Err(ProjectError::EmptyPortName);
        }
        Ok(())
    }
}

pub open spec fn port_names(p: Seq<PortDefinition>) -> Seq<Seq<char>> {
    p.map_values(|x: PortDefinition| x.name@)
}

/// The first rule that port `i` or a later one breaks: a blank name or a
/// name used by an earlier port.
pub open spec fn port_set_check(p: Seq<PortDefinition>, i: int) -> Result<(), ProjectErrorView>
    decreases p.len() - i,
{
    if i < 0 || i >= p.len() {
        Ok(())
    } else if spec_is_blank(p[i].name@) {
        Err(ProjectErrorView::EmptyPortName)
    } else if port_names(p.take(i)).contains(p[i].name@) {
        Err(ProjectErrorView::DuplicatePortName(p[i].name@))
    } else {
        port_set_check(p, i + 1)
    }
}

/// Every port is valid and no two share a name.
pub fn validate_port_set(ports: &[PortDefinition]) -> (r: Result<(), ProjectError>)
    ensures
        outcome(r) == port_set_check(ports@, 0),
{
    let mut seen: Vec<String> = Vec::new();
    let mut i: usize = 0;
    while i < ports.len()
        invariant
            i <= ports@.len(),
            views(seen@) == port_names(ports@.take(i as int)),
            port_set_check(ports@, 0) == port_set_check(ports@, i as int),
        decreases ports.len() - i,
    {
        let port = &ports[i];
        match port.validate() {
            Err(e) => {
                return Err(e);
            },
            Ok(()) => {},
        }
        if contains_str(seen.as_slice(), port.name.as_str()) {
            return Err(ProjectError::DuplicatePortName(port.name.clone()));
        }
        let ghost before = seen@;
        seen.push(port.name.clone());
        assert(views(seen@) =~= views(before).push(ports@[i as int].name@));
        assert(ports@.take(i + 1) =~= ports@.take(i as int).push(ports@[i as int]));
        assert(port_names(ports@.take(i + 1)) =~= port_names(ports@.take(i as int)).push(
            ports@[i as int].name@,
        ));
        i = i + 1;
    }
    Ok(())
}

/// The names of the ports, in order.
pub fn collect_port_names(ports: &[PortDefinition]) -> (r: Vec<String>)
    ensures
        views(r@) == port_names(ports@),
{
    let mut names: Vec<String> = Vec::new();
    let mut i: usize = 0;
    while i < ports.len()
        invariant
            i <= ports@.len(),
            views(names@) == port_names(ports@.take(i as int)),
        decreases ports.len() - i,
    {
        let ghost before = names@;
        names.push(ports[i].name.clone());
        assert(views(names@) =~= views(before).push(ports@[i as int].name@));
        assert(ports@.take(i + 1) =~= ports@.take(i as int).push(ports@[i as int]));
        assert(port_names(ports@.take(i + 1)) =~= port_names(ports@.take(i as int)).push(
            ports@[i as int].name@,
        ));
        i = i + 1;
    }
    assert(ports@.take(ports@.len() as int) =~= ports@);
    names
}

// ---------------------------------------------------------------------------
// References to other definitions
// ---------------------------------------------------------------------------

#[derive(Debug, Clone, Copy, PartialEq, Eq, Structural)]
pub enum DefinitionReferenceKind {
    BoardDefinition,
    ModuleDefinition,
    AssemblyDefinition,
    AssemblyBundle,
    BehaviorDefinition,
    HostBoard,
}

/// A reference to another document, a built-in model or a host board.
#[derive(Debug, Clone)]
pub struct DefinitionReference {
    pub kind: DefinitionReferenceKind,
    pub path: Option<String>,
    pub builtin_name: Option<String>,
    pub host_board: Option<HostBoard>,
}

/// The rule a definition reference breaks, if any: a host-board reference
/// names only its board; any other names exactly one of a non-empty path
/// and a non-blank built-in name, and no host board.
pub open spec fn reference_check(r: DefinitionReference) -> Result<(), ProjectErrorView> {
    match r.kind {
        DefinitionReferenceKind::HostBoard => if r.host_board is None || r.path is Some
            || r.builtin_name is Some {
            Err(
                ProjectErrorView::InvalidDefinitionReference(
                    "host_board references must only define host_board"@,
                ),
            )
        } else {
            Ok(())
        },
        _ => {
            let has_path = !missing_or_empty(r.path);
            let has_builtin = !missing_or_blank(r.builtin_name);
            if r.host_board is Some || has_path == has_builtin {
                Err(
                    ProjectErrorView::InvalidDefinitionReference(
                        "document references must define exactly one of path or builtin_name"@,
                    ),
                )
            } else {
                Ok(())
            }
        },
    }
}

pub open spec fn optional_reference_check(r: Option<DefinitionReference>) -> Result<
    (),
    ProjectErrorView,
> {
    match r {
        Some(r) => reference_check(r),
        None => Ok(()),
    }
}

impl DefinitionReference {
    pub fn file(kind: DefinitionReferenceKind, path: &str) -> (r: Self)
        ensures
            r.kind == kind,
            r.path matches Some(p) && p@ == path@,
            r.builtin_name is None,
            r.host_board is None,
    {
        DefinitionReference { kind, path: Some(owned(path)), builtin_name: None, host_board: None }
    }

    pub fn builtin(kind: DefinitionReferenceKind, name: &str) -> (r: Self)
        ensures
            r.kind == kind,
            r.path is None,
            r.builtin_name matches Some(n) && n@ == name@,
            r.host_board is None,
    {
        DefinitionReference { kind, path: None, builtin_name: Some(owned(name)), host_board: None }
    }

    pub fn host_board(board: HostBoard) -> (r: Self)
        ensures
            r.kind == DefinitionReferenceKind::HostBoard,
            r.path is None,
            r.builtin_name is None,
            r.host_board == Some(board),
    {
        DefinitionReference {
            kind: DefinitionReferenceKind::HostBoard,
            path: None,
            builtin_name: None,
            host_board: Some(board),
        }
    }

    pub fn validate(&self) -> (r: Result<(), ProjectError>)
        ensures
            outcome(r) == reference_check(*self),
    {
        match self.kind {
            DefinitionReferenceKind::HostBoard => {
                if self.host_board.is_none() || self.path.is_some() || self.builtin_name.is_some() {
                    return Err(
                        ProjectError::InvalidDefinitionReference(
                            owned("host_board references must only define host_board"),
                        ),
                    );
                }
            },
            _ => {
                let has_path = match &self.path {
                    Some(path) => path.as_str().unicode_len() != 0,
                    None => false,
                };
                let has_builtin = match &self.builtin_name {
                    Some(name) => !is_blank(name.as_str()),
                    None => false,
                };
                if self.host_board.is_some() || has_path == has_builtin {
                    return Err(
                        ProjectError::InvalidDefinitionReference(
                            owned(
                                "document references must define exactly one of path or builtin_name",
                            ),
                        ),
                    );
                }
            },
        }
        Ok(())
    }
}

pub fn validate_optional_reference(r: &Option<DefinitionReference>) -> (res: Result<
    (),
    ProjectError,
>)
    ensures
        outcome(res) == optional_reference_check(*r),
{
    match r {
        Some(reference) => reference.validate(),
        None => Ok(()),
    }
}

// ---------------------------------------------------------------------------
// Board and module definitions
// ---------------------------------------------------------------------------

/// A reusable board: its source, its ports and its default firmware.
#[derive(Debug, Clone)]
pub struct BoardDefinition {
    pub format_version: String,
    pub name: String,
    pub description: Option<String>,
    pub source: DefinitionSource,
    pub ports: Vec<PortDefinition>,
    pub default_firmware: Option<FirmwareSource>,
}

pub open spec fn board_definition_check(d: BoardDefinition) -> Result<(), ProjectErrorView> {
    if spec_is_blank(d.name@) {
        Err(ProjectErrorView::EmptyName("board definition"@))
    } else {
        then_check(
            source_check(d.source, d.name@),
            then_check(port_set_check(d.ports@, 0), firmware_check(d.default_firmware)),
        )
    }
}

impl BoardDefinition {
    pub fn new(name: &str, source: DefinitionSource) -> (r: Self)
        ensures
            r.format_version@ == PROJECT_FORMAT_VERSION@,
            r.name@ == name@,
            r.description is None,
            r.source == source,
            r.ports@.len() == 0,
            r.default_firmware is None,
    {
        BoardDefinition {
            format_version: owned(PROJECT_FORMAT_VERSION),
            name: owned(name),
            description: None,
            source,
            ports: Vec::new(),
            default_firmware: None,
        }
    }

    pub fn validate(&self) -> (r: Result<(), ProjectError>)
        ensures
            outcome(r) == board_definition_check(*self),
    {
        if is_blank(self.name.as_str()) {
            return Err(ProjectError::EmptyName("board definition"));
        }
        match self.source.validate(self.name.as_str()) {
            Err(e) => {
                return Err(e);
            },
            Ok(()) => {},
        }
        match validate_port_set(self.ports.as_slice()) {
            Err(e) => {
                return Err(e);
            },
            Ok(()) => {},
        }
        validate_optional_firmware(&self.default_firmware)
    }
}

/// A reusable module, possibly carrying its own host board.
#[derive(Debug, Clone)]
pub struct ModuleDefinition {
    pub format_version: String,
    pub name: String,
    pub description: Option<String>,
    pub source: DefinitionSource,
    pub ports: Vec<PortDefinition>,
    pub embedded_host_board: Option<HostBoard>,
    pub default_firmware: Option<FirmwareSource>,
}

pub open spec fn module_definition_check(d: ModuleDefinition) -> Result<(), ProjectErrorView> {
    if spec_is_blank(d.name@) {
        Err(ProjectErrorView::EmptyName("module definition"@))
    } else {
        then_check(
            source_check(d.source, d.name@),
            then_check(port_set_check(d.ports@, 0), firmware_check(d.default_firmware)),
        )
    }
}

impl ModuleDefinition {
    pub fn new(name: &str, source: DefinitionSource) -> (r: Self)
        ensures
            r.format_version@ == PROJECT_FORMAT_VERSION@,
            r.name@ == name@,
            r.description is None,
            r.source == source,
            r.ports@.len() == 0,
            r.embedded_host_board is None,
            r.default_firmware is None,
    {
        ModuleDefinition {
            format_version: owned(PROJECT_FORMAT_VERSION),
            name: owned(name),
            description: None,
            source,
            ports: Vec::new(),
            embedded_host_board: None,
            default_firmware: None,
        }
    }

    pub fn validate(&self) -> (r: Result<(), ProjectError>)
        ensures
            outcome(r) == module_definition_check(*self),
    {
        if is_blank(self.name.as_str()) {
            return Err(ProjectError::EmptyName("module definition"));
        }
        match self.source.validate(self.name.as_str()) {
            Err(e) => {
                return Err(e);
            },
            Ok(()) => {},
        }
        match validate_port_set(self.ports.as_slice()) {
            Err(e) => {
                return Err(e);
            },
            Ok(()) => {},
        }
        validate_optional_firmware(&self.default_firmware)
    }
}

// ---------------------------------------------------------------------------
// Attachments and exports
// ---------------------------------------------------------------------------

/// An instance of another definition attached to an assembly.
#[derive(Debug, Clone)]
pub struct AttachedInstance {
    pub id: String,
    pub label: Option<String>,
    pub reference: DefinitionReference,
    pub ports: Vec<PortDefinition>,
    pub firmware_override: Option<FirmwareSource>,
    pub note: Option<String>,
}

pub open spec fn attached_instance_check(c: AttachedInstance) -> Result<(), ProjectErrorView> {
    if spec_is_blank(c.id@) {
        Err(ProjectErrorView::EmptyName("attached instance"@))
    } else {
        then_check(
            reference_check(c.reference),
            then_check(port_set_check(c.ports@, 0), firmware_check(c.firmware_override)),
        )
    }
}

impl AttachedInstance {
    pub fn validate(&self) -> (r: Result<(), ProjectError>)
        ensures
            outcome(r) == attached_instance_check(*self),
    {
        if is_blank(self.id.as_str()) {
            return Err(ProjectError::EmptyName("attached instance"));
        }
        match self.reference.validate() {
            Err(e) => {
                return Err(e);
            },
            Ok(()) => {},
        }
        match validate_port_set(self.ports.as_slice()) {
            Err(e) => {
                return Err(e);
            },
            Ok(()) => {},
        }
        validate_optional_firmware(&self.firmware_override)
    }
}

/// A port of the primary board (no instance) or of an attached instance.
#[derive(Debug, Clone)]
pub struct AttachmentEndpoint {
    pub instance_id: Option<String>,
    pub port: String,
}

/// The rule an endpoint's own shape breaks: a blank port, or a blank
/// instance id.
pub open spec fn endpoint_shape_check(e: AttachmentEndpoint) -> Result<(), ProjectErrorView> {
    if spec_is_blank(e.port@) {
        Err(ProjectErrorView::EmptyPortName)
    } else {
        match e.instance_id {
            Some(id) => if spec_is_blank(id@) {
                Err(ProjectErrorView::UnknownInstanceId(id@))
            } else {
                Ok(())
            },
            None => Ok(()),
        }
    }
}

/// The rule an endpoint breaks against the ports that exist: the primary
/// ports `primary`, and the attached instances with ids `ids` whose port
/// names are `ports` (one list per instance).
pub open spec fn endpoint_check(
    e: AttachmentEndpoint,
    primary: Seq<Seq<char>>,
    ids: Seq<Seq<char>>,
    ports: Seq<Seq<Seq<char>>>,
) -> Result<(), ProjectErrorView> {
    match e.instance_id {
        None => if primary.contains(e.port@) {
            Ok(())
        } else {
            Err(ProjectErrorView::UnknownPrimaryPort(e.port@))
        },
        Some(id) => if !ids.contains(id@) {
            Err(ProjectErrorView::UnknownInstanceId(id@))
        } else if !(exists|k: int|
            0 <= k < ids.len() && k < ports.len() && ids[k] == id@ && #[trigger] ports[k].contains(
                e.port@,
            )) {
            Err(ProjectErrorView::UnknownChildPort(id@, e.port@))
        } else {
            Ok(())
        },
    }
}

impl AttachmentEndpoint {
    pub fn primary(port: &str) -> (r: Self)
        ensures
            r.instance_id is None,
            r.port@ == port@,
    {
        AttachmentEndpoint { instance_id: None, port: owned(port) }
    }

    pub fn child(instance_id: &str, port: &str) -> (r: Self)
        ensures
            r.instance_id matches Some(id) && id@ == instance_id@,
            r.port@ == port@,
    {
        AttachmentEndpoint { instance_id: Some(owned(instance_id)), port: owned(port) }
    }

    pub fn validate_shape(&self) -> (r: Result<(), ProjectError>)
        ensures
            outcome(r) == endpoint_shape_check(*self),
    {
        if is_blank(self.port.as_str()) {
            return Err(ProjectError::EmptyPortName);
        }
        match &self.instance_id {
            Some(instance_id) => {
                if is_blank(instance_id.as_str()) {
                    return Err(ProjectError::UnknownInstanceId(instance_id.clone()));
                }
            },
            None => {},
        }
        Ok(())
    }
}

/// Checks an endpoint against the primary port names, the attached
/// instances' ids and each instance's port names.
pub fn validate_endpoint(
    endpoint: &AttachmentEndpoint,
    primary_ports: &[String],
    child_ids: &[String],
    child_ports: &[Vec<String>],
) -> (r: Result<(), ProjectError>)
    requires
        child_ids@.len() == child_ports@.len(),
    ensures
        outcome(r) == endpoint_check(
            *endpoint,
            views(primary_ports@),
            views(child_ids@),
            child_ports@.map_values(|v: Vec<String>| views(v@)),
        ),
{
    let ghost ports_view = child_ports@.map_values(|v: Vec<String>| views(v@));
    match &endpoint.instance_id {
        None => {
            if !contains_str(primary_ports, endpoint.port.as_str()) {
                return Err(ProjectError::UnknownPrimaryPort(endpoint.port.clone()));
            }
            Ok(())
        },
        Some(instance_id) => {
            let mut found_id = false;
            let mut found_port = false;
            let mut k: usize = 0;
            while k < child_ids.len()
                invariant
                    child_ids@.len() == child_ports@.len(),
                    ports_view == child_ports@.map_values(|v: Vec<String>| views(v@)),
                    k <= child_ids@.len(),
                    found_id == (exists|j: int| 0 <= j < k && child_ids@[j]@ == instance_id@),
                    found_port == (exists|j: int|
                        0 <= j < k && child_ids@[j]@ == instance_id@ && #[trigger] ports_view[j].contains(
                            endpoint.port@,
                        )),
                decreases child_ids.len() - k,
            {
                assert(ports_view[k as int] == views(child_ports@[k as int]@));
                let same = str_eq_string(&child_ids[k], instance_id);
                let has = contains_str(child_ports[k].as_slice(), endpoint.port.as_str());
                if same {
                    found_id = true;
                    if has {
                        found_port = true;
                    }
                }
                proof {
                    assert(same == (child_ids@[k as int]@ == instance_id@));
                    assert(has == ports_view[k as int].contains(endpoint.port@));
                }
                k = k + 1;
            }
            proof {
                let ids = views(child_ids@);
                if found_id {
                    let j = choose|j: int| 0 <= j < k && child_ids@[j]@ == instance_id@;
                    assert(ids[j] == instance_id@);
                }
                if ids.contains(instance_id@) {
                    let j = choose|j: int| 0 <= j < ids.len() && ids[j] == instance_id@;
                    assert(child_ids@[j]@ == instance_id@);
                }
                if found_port {
                    let j = choose|j: int|
                        0 <= j < k && child_ids@[j]@ == instance_id@ && #[trigger] ports_view[j].contains(
                            endpoint.port@,
                        );
                    assert(ids[j] == instance_id@);
                }
                if exists|j: int|
                    0 <= j < ids.len() && j < ports_view.len() && ids[j] == instance_id@
                        && #[trigger] ports_view[j].contains(endpoint.port@) {
                    let j = choose|j: int|
                        0 <= j < ids.len() && j < ports_view.len() && ids[j] == instance_id@
                            && #[trigger] ports_view[j].contains(endpoint.port@);
                    assert(child_ids@[j]@ == instance_id@);
                }
            }
            if !found_id {
                return Err(ProjectError::UnknownInstanceId(instance_id.clone()));
            }
            if !found_port {
                return Err(
                    ProjectError::UnknownChildPort {
                        instance_id: instance_id.clone(),
                        port: endpoint.port.clone(),
                    },
                );
            }
            Ok(())
        },
    }
}

fn str_eq_string(a: &String, b: &String) -> (r: bool)
    ensures
        r == (a@ == b@),
{
    str_eq(a.as_str(), b.as_str())
}

/// A wire between two endpoints of an assembly.
#[derive(Debug, Clone)]
pub struct AttachmentBinding {
    pub from: AttachmentEndpoint,
    pub to: AttachmentEndpoint,
    pub mode: BindingMode,
    pub note: Option<String>,
}

/// An endpoint an assembly offers under a name of its own.
#[derive(Debug, Clone)]
pub struct AssemblyExport {
    pub name: String,
    pub source: AttachmentEndpoint,
    pub aliases: Vec<String>,
    pub note: Option<String>,
}

/// The first rule that attachment `i` or a later one breaks.
pub open spec fn attachments_check(
    a: Seq<AttachmentBinding>,
    primary: Seq<Seq<char>>,
    ids: Seq<Seq<char>>,
    ports: Seq<Seq<Seq<char>>>,
    i: int,
) -> Result<(), ProjectErrorView>
    decreases a.len() - i,
{
    if i < 0 || i >= a.len() {
        Ok(())
    } else {
        then_check(
            endpoint_shape_check(a[i].from),
            then_check(
                endpoint_shape_check(a[i].to),
                then_check(
                    endpoint_check(a[i].from, primary, ids, ports),
                    then_check(
                        endpoint_check(a[i].to, primary, ids, ports),
                        attachments_check(a, primary, ids, ports, i + 1),
                    ),
                ),
            ),
        )
    }
}

pub open spec fn export_names(e: Seq<AssemblyExport>) -> Seq<Seq<char>> {
    e.map_values(|x: AssemblyExport| x.name@)
}

/// The first rule that export `i` or a later one breaks.
pub open spec fn exports_check(
    e: Seq<AssemblyExport>,
    primary: Seq<Seq<char>>,
    ids: Seq<Seq<char>>,
    ports: Seq<Seq<Seq<char>>>,
    i: int,
) -> Result<(), ProjectErrorView>
    decreases e.len() - i,
{
    if i < 0 || i >= e.len() {
        Ok(())
    } else if spec_is_blank(e[i].name@) {
        Err(ProjectErrorView::EmptyName("assembly export"@))
    } else if export_names(e.take(i)).contains(e[i].name@) {
        Err(ProjectErrorView::DuplicateExportName(e[i].name@))
    } else {
        then_check(
            endpoint_shape_check(e[i].source),
            then_check(
                endpoint_check(e[i].source, primary, ids, ports),
                exports_check(e, primary, ids, ports, i + 1),
            ),
        )
    }
}

/// Checks every attachment: both endpoints well shaped and existing.
pub fn validate_attachments(
    attachments: &[AttachmentBinding],
    primary_ports: &[String],
    child_ids: &[String],
    child_ports: &[Vec<String>],
) -> (r: Result<(), ProjectError>)
    requires
        child_ids@.len() == child_ports@.len(),
    ensures
        outcome(r) == attachments_check(
            attachments@,
            views(primary_ports@),
            views(child_ids@),
            child_ports@.map_values(|v: Vec<String>| views(v@)),
            0,
        ),
{
    let ghost pv = views(primary_ports@);
    let ghost iv = views(child_ids@);
    let ghost cv = child_ports@.map_values(|v: Vec<String>| views(v@));
    let mut i: usize = 0;
    while i < attachments.len()
        invariant
            child_ids@.len() == child_ports@.len(),
            pv == views(primary_ports@),
            iv == views(child_ids@),
            cv == child_ports@.map_values(|v: Vec<String>| views(v@)),
            i <= attachments@.len(),
            attachments_check(attachments@, pv, iv, cv, 0) == attachments_check(
                attachments@,
                pv,
                iv,
                cv,
                i as int,
            ),
        decreases attachments.len() - i,
    {
        let a = &attachments[i];
        match a.from.validate_shape() {
            Err(e) => {
                return Err(e);
            },
            Ok(()) => {},
        }
        match a.to.validate_shape() {
            Err(e) => {
                return Err(e);
            },
            Ok(()) => {},
        }
        match validate_endpoint(&a.from, primary_ports, child_ids, child_ports) {
            Err(e) => {
                return Err(e);
            },
            Ok(()) => {},
        }
        match validate_endpoint(&a.to, primary_ports, child_ids, child_ports) {
            Err(e) => {
                return Err(e);
            },
            Ok(()) => {},
        }
        i = i + 1;
    }
    Ok(())
}

/// Checks every export: a non-blank unique name and an existing source.
pub fn validate_exports(
    exports: &[AssemblyExport],
    primary_ports: &[String],
    child_ids: &[String],
    child_ports: &[Vec<String>],
) -> (r: Result<(), ProjectError>)
    requires
        child_ids@.len() == child_ports@.len(),
    ensures
        outcome(r) == exports_check(
            exports@,
            views(primary_ports@),
            views(child_ids@),
            child_ports@.map_values(|v: Vec<String>| views(v@)),
            0,
        ),
{
    let ghost pv = views(primary_ports@);
    let ghost iv = views(child_ids@);
    let ghost cv = child_ports@.map_values(|v: Vec<String>| views(v@));
    let mut seen: Vec<String> = Vec::new();
    let mut i: usize = 0;
    while i < exports.len()
        invariant
            child_ids@.len() == child_ports@.len(),
            pv == views(primary_ports@),
            iv == views(child_ids@),
            cv == child_ports@.map_values(|v: Vec<String>| views(v@)),
            i <= exports@.len(),
            views(seen@) == export_names(exports@.take(i as int)),
            exports_check(exports@, pv, iv, cv, 0) == exports_check(
                exports@,
                pv,
                iv,
                cv,
                i as int,
            ),
        decreases exports.len() - i,
    {
        let export = &exports[i];
        if is_blank(export.name.as_str()) {
            return Err(ProjectError::EmptyName("assembly export"));
        }
        if contains_str(seen.as_slice(), export.name.as_str()) {
            return Err(ProjectError::DuplicateExportName(export.name.clone()));
        }
        let ghost before = seen@;
        seen.push(export.name.clone());
        assert(views(seen@) =~= views(before).push(exports@[i as int].name@));
        assert(exports@.take(i + 1) =~= exports@.take(i as int).push(exports@[i as int]));
        assert(export_names(exports@.take(i + 1)) =~= export_names(exports@.take(i as int)).push(
            exports@[i as int].name@,
        ));
        match export.source.validate_shape() {
            Err(e) => {
                return Err(e);
            },
            Ok(()) => {},
        }
        match validate_endpoint(&export.source, primary_ports, child_ids, child_ports) {
            Err(e) => {
                return Err(e);
            },
            Ok(()) => {},
        }
        i = i + 1;
    }
    Ok(())
}

// ---------------------------------------------------------------------------
// Assembly definitions
// ---------------------------------------------------------------------------

/// A primary definition with instances attached to it, the wires between
/// them and the endpoints it exports.
#[derive(Debug, Clone)]
pub struct AssemblyDefinition {
    pub format_version: String,
    pub name: String,
    pub description: Option<String>,
    pub primary: DefinitionReference,
    pub primary_ports: Vec<PortDefinition>,
    pub children: Vec<AttachedInstance>,
    pub attachments: Vec<AttachmentBinding>,
    pub exports: Vec<AssemblyExport>,
}

pub open spec fn instance_ids(c: Seq<AttachedInstance>) -> Seq<Seq<char>> {
    c.map_values(|x: AttachedInstance| x.id@)
}

pub open spec fn instance_ports(c: Seq<AttachedInstance>) -> Seq<Seq<Seq<char>>> {
    c.map_values(|x: AttachedInstance| port_names(x.ports@))
}

/// The first rule that attached instance `i` or a later one breaks: its
/// own rules, then an id used by an earlier instance.
pub open spec fn instances_check(c: Seq<AttachedInstance>, i: int) -> Result<
    (),
    ProjectErrorView,
>
    decreases c.len() - i,
{
    if i < 0 || i >= c.len() {
        Ok(())
    } else {
        then_check(
            attached_instance_check(c[i]),
            if instance_ids(c.take(i)).contains(c[i].id@) {
                Err(ProjectErrorView::DuplicateInstanceId(c[i].id@))
            } else {
                instances_check(c, i + 1)
            },
        )
    }
}

pub open spec fn assembly_definition_check(d: AssemblyDefinition) -> Result<
    (),
    ProjectErrorView,
> {
    if spec_is_blank(d.name@) {
        Err(ProjectErrorView::EmptyName("assembly definition"@))
    } else {
        let primary = port_names(d.primary_ports@);
        let ids = instance_ids(d.children@);
        let ports = instance_ports(d.children@);
        then_check(
            reference_check(d.primary),
            then_check(
                port_set_check(d.primary_ports@, 0),
                then_check(
                    instances_check(d.children@, 0),
                    then_check(
                        attachments_check(d.attachments@, primary, ids, ports, 0),
                        exports_check(d.exports@, primary, ids, ports, 0),
                    ),
                ),
            ),
        )
    }
}

/// Validates the attached instances and gathers their ids and port names.
fn validate_instances(children: &[AttachedInstance]) -> (r: Result<
    (Vec<String>, Vec<Vec<String>>),
    ProjectError,
>)
    ensures
        match r {
            Ok((ids, ports)) => instances_check(children@, 0) is Ok && views(ids@) == instance_ids(
                children@,
            ) && ports@.map_values(|v: Vec<String>| views(v@)) == instance_ports(children@)
                && ids@.len() == ports@.len(),
            Err(e) => instances_check(children@, 0) == Err::<(), ProjectErrorView>(e@),
        },
{
    let mut ids: Vec<String> = Vec::new();
    let mut ports: Vec<Vec<String>> = Vec::new();
    let mut i: usize = 0;
    while i < children.len()
        invariant
            i <= children@.len(),
            ids@.len() == i,
            ports@.len() == i,
            views(ids@) == instance_ids(children@.take(i as int)),
            ports@.map_values(|v: Vec<String>| views(v@)) == instance_ports(
                children@.take(i as int),
            ),
            instances_check(children@, 0) == instances_check(children@, i as int),
        decreases children.len() - i,
    {
        let child = &children[i];
        match child.validate() {
            Err(e) => {
                return Err(e);
            },
            Ok(()) => {},
        }
        if contains_str(ids.as_slice(), child.id.as_str()) {
            return Err(ProjectError::DuplicateInstanceId(child.id.clone()));
        }
        let ghost ids_before = ids@;
        let ghost ports_before = ports@;
        ids.push(child.id.clone());
        ports.push(collect_port_names(child.ports.as_slice()));
        assert(children@.take(i + 1) =~= children@.take(i as int).push(children@[i as int]));
        assert(views(ids@) =~= views(ids_before).push(children@[i as int].id@));
        assert(instance_ids(children@.take(i + 1)) =~= instance_ids(children@.take(i as int)).push(
            children@[i as int].id@,
        ));
        assert(ports@.map_values(|v: Vec<String>| views(v@)) =~= ports_before.map_values(
            |v: Vec<String>| views(v@),
        ).push(port_names(children@[i as int].ports@)));
        assert(instance_ports(children@.take(i + 1)) =~= instance_ports(
            children@.take(i as int),
        ).push(port_names(children@[i as int].ports@)));
        i = i + 1;
    }
    assert(children@.take(children@.len() as int) =~= children@);
    Ok((ids, ports))
}

impl AssemblyDefinition {
    pub fn new(name: &str, primary: DefinitionReference) -> (r: Self)
        ensures
            r.format_version@ == PROJECT_FORMAT_VERSION@,
            r.name@ == name@,
            r.description is None,
            r.primary == primary,
            r.primary_ports@.len() == 0,
            r.children@.len() == 0,
            r.attachments@.len() == 0,
            r.exports@.len() == 0,
    {
        AssemblyDefinition {
            format_version: owned(PROJECT_FORMAT_VERSION),
            name: owned(name),
            description: None,
            primary,
            primary_ports: Vec::new(),
            children: Vec::new(),
            attachments: Vec::new(),
            exports: Vec::new(),
        }
    }

    pub fn validate(&self) -> (r: Result<(), ProjectError>)
        ensures
            outcome(r) == assembly_definition_check(*self),
    {
        if is_blank(self.name.as_str()) {
            return Err(ProjectError::EmptyName("assembly definition"));
        }
        match self.primary.validate() {
            Err(e) => {
                return Err(e);
            },
            Ok(()) => {},
        }
        match validate_port_set(self.primary_ports.as_slice()) {
            Err(e) => {
                return Err(e);
            },
            Ok(()) => {},
        }
        let (ids, ports) = match validate_instances(self.children.as_slice()) {
            Err(e) => {
                return Err(e);
            },
            Ok(found) => found,
        };
        let primary = collect_port_names(self.primary_ports.as_slice());
        match validate_attachments(
            self.attachments.as_slice(),
            primary.as_slice(),
            ids.as_slice(),
            ports.as_slice(),
        ) {
            Err(e) => {
                return Err(e);
            },
            Ok(()) => {},
        }
        validate_exports(self.exports.as_slice(), primary.as_slice(), ids.as_slice(), ports.as_slice())
    }
}

} // verus!

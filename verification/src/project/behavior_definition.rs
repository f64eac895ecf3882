//! Declarative behaviors of modules: which engine drives a module, which
//! board ports play which role, and the engine's parameters.

use vstd::prelude::*;
use crate::project::error::{outcome, ProjectError, ProjectErrorView};
use crate::project::shared::PROJECT_FORMAT_VERSION;
use crate::text::{contains_str, is_blank, owned, spec_is_blank, views};

verus! {

#[derive(Debug, Clone, Copy, PartialEq, Eq, Structural)]
pub enum BehaviorEngine {
    Sht31I2cSensor,
    Mcp2515CanModule,
    Max31865RtdFrontend,
    PwmToVoltage,
}

pub open spec fn spec_engine_label(e: BehaviorEngine) -> Seq<char> {
    match e {
        BehaviorEngine::Sht31I2cSensor => "SHT31 I2C Sensor"@,
        BehaviorEngine::Mcp2515CanModule => "MCP2515 CAN Module"@,
        BehaviorEngine::Max31865RtdFrontend => "MAX31865 RTD Frontend"@,
        BehaviorEngine::PwmToVoltage => "PWM to Voltage"@,
    }
}

impl BehaviorEngine {
    pub fn label(self) -> (r: &'static str)
        ensures
            r@ == spec_engine_label(self),
    {
        match self {
            BehaviorEngine::Sht31I2cSensor => "SHT31 I2C Sensor",
            BehaviorEngine::Mcp2515CanModule => "MCP2515 CAN Module",
            BehaviorEngine::Max31865RtdFrontend => "MAX31865 RTD Frontend",
            BehaviorEngine::PwmToVoltage => "PWM to Voltage",
        }
    }
}

/// A parameter value. `Float` holds the IEEE-754 bit pattern of the value.
#[derive(Debug, Clone)]
pub enum BehaviorValue {
    Bool(bool),
    Integer(i64),
    Float(u64),
    Text(String),
}

/// A board port and the role it plays for the behavior engine.
#[derive(Debug, Clone)]
pub struct BehaviorPortBinding {
    pub board_port: String,
    pub role: String,
    pub note: Option<String>,
}

pub open spec fn port_binding_check(p: BehaviorPortBinding) -> Result<(), ProjectErrorView> {
    if spec_is_blank(p.board_port@) {
        Err(ProjectErrorView::EmptyPortName)
    } else if spec_is_blank(p.role@) {
        Err(ProjectErrorView::EmptyBehaviorRole)
    } else {
        Ok(())
    }
}

impl BehaviorPortBinding {
    pub fn new(board_port: &str, role: &str) -> (r: Self)
        ensures
            r.board_port@ == board_port@,
            r.role@ == role@,
            r.note is None,
    {
        BehaviorPortBinding { board_port: owned(board_port), role: owned(role), note: None }
    }

    pub fn validate(&self) -> (r: Result<(), ProjectError>)
        ensures
            outcome(r) == port_binding_check(*self),
    {
        if is_blank(self.board_port.as_str()) {
            return Err(ProjectError::EmptyPortName);
        }
        if is_blank(self.role.as_str()) {
            return Err(ProjectError::EmptyBehaviorRole);
        }
        Ok(())
    }
}

/// A behavior: its engine, port roles and parameters. The parameters are
/// kept in ascending name order, each name once, as a map holds them.
#[derive(Debug, Clone)]
pub struct BehaviorDefinition {
    pub format_version: String,
    pub name: String,
    pub description: Option<String>,
    pub engine: BehaviorEngine,
    pub ports: Vec<BehaviorPortBinding>,
    pub parameters: Vec<(String, BehaviorValue)>,
}

pub open spec fn board_ports(p: Seq<BehaviorPortBinding>) -> Seq<Seq<char>> {
    p.map_values(|x: BehaviorPortBinding| x.board_port@)
}

pub open spec fn roles(p: Seq<BehaviorPortBinding>) -> Seq<Seq<char>> {
    p.map_values(|x: BehaviorPortBinding| x.role@)
}

/// The first rule that port binding `i` or a later one breaks: its own
/// rules, then a board port or a role used by an earlier binding.
pub open spec fn behavior_ports_check(p: Seq<BehaviorPortBinding>, i: int) -> Result<
    (),
    ProjectErrorView,
>
    decreases p.len() - i,
{
    if i < 0 || i >= p.len() {
        Ok(())
    } else if port_binding_check(p[i]) is Err {
        port_binding_check(p[i])
    } else if board_ports(p.take(i)).contains(p[i].board_port@) {
        Err(ProjectErrorView::DuplicateBehaviorPort(p[i].board_port@))
    } else if roles(p.take(i)).contains(p[i].role@) {
        Err(ProjectErrorView::DuplicateBehaviorRole(p[i].role@))
    } else {
        behavior_ports_check(p, i + 1)
    }
}

/// The first parameter at `i` or later whose name is blank.
pub open spec fn parameters_check(p: Seq<(String, BehaviorValue)>, i: int) -> Result<
    (),
    ProjectErrorView,
>
    decreases p.len() - i,
{
    if i < 0 || i >= p.len() {
        Ok(())
    } else if spec_is_blank(p[i].0@) {
        Err(ProjectErrorView::InvalidBehaviorParameter(p[i].0@))
    } else {
        parameters_check(p, i + 1)
    }
}

pub open spec fn behavior_definition_check(d: BehaviorDefinition) -> Result<(), ProjectErrorView> {
    if spec_is_blank(d.name@) {
        Err(ProjectErrorView::EmptyName("behavior definition"@))
    } else if behavior_ports_check(d.ports@, 0) is Err {
        behavior_ports_check(d.ports@, 0)
    } else {
        parameters_check(d.parameters@, 0)
    }
}

impl BehaviorDefinition {
    pub fn new(name: &str, engine: BehaviorEngine) -> (r: Self)
        ensures
            r.format_version@ == PROJECT_FORMAT_VERSION@,
            r.name@ == name@,
            r.description is None,
            r.engine == engine,
            r.ports@.len() == 0,
            r.parameters@.len() == 0,
    {
        BehaviorDefinition {
            format_version: owned(PROJECT_FORMAT_VERSION),
            name: owned(name),
            description: None,
            engine,
            ports: Vec::new(),
            parameters: Vec::new(),
        }
    }

    pub fn validate(&self) -> (r: Result<(), ProjectError>)
        ensures
            outcome(r) == behavior_definition_check(*self),
    {
        if is_blank(self.name.as_str()) {
            return Err(ProjectError::EmptyName("behavior definition"));
        }
        let ports = &self.ports;
        let mut seen_ports: Vec<String> = Vec::new();
        let mut seen_roles: Vec<String> = Vec::new();
        let mut i: usize = 0;
        while i < ports.len()
            invariant
                !spec_is_blank(self.name@),
                ports@ == self.ports@,
                i <= ports@.len(),
                views(seen_ports@) == board_ports(ports@.take(i as int)),
                views(seen_roles@) == roles(ports@.take(i as int)),
                behavior_ports_check(ports@, 0) == behavior_ports_check(ports@, i as int),
            decreases ports.len() - i,
        {
            let port = &ports[i];
            match port.validate() {
                Err(e) => {
                    return Err(e);
                },
                Ok(()) => {},
            }
            if contains_str(seen_ports.as_slice(), port.board_port.as_str()) {
                return Err(ProjectError::DuplicateBehaviorPort(port.board_port.clone()));
            }
            let ghost ports_before = seen_ports@;
            seen_ports.push(port.board_port.clone());
            if contains_str(seen_roles.as_slice(), port.role.as_str()) {
                return Err(ProjectError::DuplicateBehaviorRole(port.role.clone()));
            }
            let ghost roles_before = seen_roles@;
            seen_roles.push(port.role.clone());
            assert(ports@.take(i + 1) =~= ports@.take(i as int).push(ports@[i as int]));
            assert(views(seen_ports@) =~= views(ports_before).push(ports@[i as int].board_port@));
            assert(board_ports(ports@.take(i + 1)) =~= board_ports(ports@.take(i as int)).push(
                ports@[i as int].board_port@,
            ));
            assert(views(seen_roles@) =~= views(roles_before).push(ports@[i as int].role@));
            assert(roles(ports@.take(i + 1)) =~= roles(ports@.take(i as int)).push(
                ports@[i as int].role@,
            ));
            i = i + 1;
        }
        let parameters = &self.parameters;
        let mut j: usize = 0;
        while j < parameters.len()
            invariant
                !spec_is_blank(self.name@),
                parameters@ == self.parameters@,
                behavior_ports_check(self.ports@, 0) is Ok,
                j <= parameters@.len(),
                parameters_check(parameters@, 0) == parameters_check(parameters@, j as int),
            decreases parameters.len() - j,
        {
            if is_blank(parameters[j].0.as_str()) {
                return Err(ProjectError::InvalidBehaviorParameter(parameters[j].0.clone()));
            }
            j = j + 1;
        }
        Ok(())
    }
}

} // verus!

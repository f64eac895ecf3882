//! Self-contained assemblies: a primary member and child members, each
//! carrying its own source, ports, firmware and behavior.

use vstd::prelude::*;
use crate::project::definitions::{
    attachments_check, collect_port_names, endpoint_check, exports_check, firmware_check,
    optional_reference_check, port_names, port_set_check, source_check, then_check,
    validate_attachments, validate_exports, validate_optional_reference, validate_port_set,
    AssemblyExport, AttachmentBinding, DefinitionReference, DefinitionSource, PortDefinition,
};
use crate::project::error::{outcome, ProjectError, ProjectErrorView};
use crate::project::shared::{FirmwareSource, HostBoard, PROJECT_FORMAT_VERSION};
use crate::text::{contains_str, is_blank, owned, spec_is_blank, str_eq, views};

verus! {

#[derive(Debug, Clone, Copy, PartialEq, Eq, Structural)]
pub enum AssemblyMemberKind {
    Board,
    Module,
}

/// One board or module of a bundle, described in full.
#[derive(Debug, Clone)]
pub struct AssemblyMember {
    pub id: String,
    pub kind: AssemblyMemberKind,
    pub name: String,
    pub label: Option<String>,
    pub description: Option<String>,
    pub source: DefinitionSource,
    pub ports: Vec<PortDefinition>,
    pub embedded_host_board: Option<HostBoard>,
    pub firmware: Option<FirmwareSource>,
    pub behavior: Option<DefinitionReference>,
    pub note: Option<String>,
}

/// The rule a member playing `role` breaks, if any.
pub open spec fn member_check(m: AssemblyMember, role: Seq<char>) -> Result<(), ProjectErrorView> {
    if spec_is_blank(m.id@) || spec_is_blank(m.name@) {
        Err(ProjectErrorView::EmptyName(role))
    } else {
        then_check(
            source_check(m.source, m.name@),
            then_check(
                port_set_check(m.ports@, 0),
                then_check(firmware_check(m.firmware), optional_reference_check(m.behavior)),
            ),
        )
    }
}

impl AssemblyMember {
    pub fn new(id: &str, kind: AssemblyMemberKind, name: &str, source: DefinitionSource) -> (r: Self)
        ensures
            r.id@ == id@,
            r.kind == kind,
            r.name@ == name@,
            r.label is None,
            r.description is None,
            r.source == source,
            r.ports@.len() == 0,
            r.embedded_host_board is None,
            r.firmware is None,
            r.behavior is None,
            r.note is None,
    {
        AssemblyMember {
            id: owned(id),
            kind,
            name: owned(name),
            label: None,
            description: None,
            source,
            ports: Vec::new(),
            embedded_host_board: None,
            firmware: None,
            behavior: None,
            note: None,
        }
    }

    /// A member needs a non-blank id and name, a consistent source, unique
    /// ports, and valid firmware and behavior references.
    pub fn validate(&self, role: &'static str) -> (r: Result<(), ProjectError>)
        ensures
            outcome(r) == member_check(*self, role@),
    {
        if is_blank(self.id.as_str()) {
            return Err(ProjectError::EmptyName(role));
        }
        if is_blank(self.name.as_str()) {
            return Err(ProjectError::EmptyName(role));
        }
        match self.source.validate(self.name.as_str()) {
            Err(e) => {
                return Err(e);
            },
            Ok(()) => {},
        }
        match validate_port_set(self.ports.as_slice()) {
            Err(e) => {
                return Err(e);
            },
            Ok(()) => {},
        }
        match &self.firmware {
            Some(firmware) => match firmware.validate() {
                Err(e) => {
                    return Err(e);
                },
                Ok(()) => {},
            },
            None => {},
        }
        validate_optional_reference(&self.behavior)
    }
}

/// A primary member with child members attached to it.
#[derive(Debug, Clone)]
pub struct AssemblyBundle {
    pub format_version: String,
    pub name: String,
    pub description: Option<String>,
    pub primary: AssemblyMember,
    pub children: Vec<AssemblyMember>,
    pub attachments: Vec<AttachmentBinding>,
    pub exports: Vec<AssemblyExport>,
}

pub open spec fn member_ids(c: Seq<AssemblyMember>) -> Seq<Seq<char>> {
    c.map_values(|x: AssemblyMember| x.id@)
}

pub open spec fn member_ports(c: Seq<AssemblyMember>) -> Seq<Seq<Seq<char>>> {
    c.map_values(|x: AssemblyMember| port_names(x.ports@))
}

/// The first rule that child `i` or a later one breaks: its own rules,
/// then an id equal to the primary's or to an earlier child's.
pub open spec fn members_check(primary_id: Seq<char>, c: Seq<AssemblyMember>, i: int) -> Result<
    (),
    ProjectErrorView,
>
    decreases c.len() - i,
{
    if i < 0 || i >= c.len() {
        Ok(())
    } else {
        then_check(
            member_check(c[i], "assembly member"@),
            if c[i].id@ == primary_id || member_ids(c.take(i)).contains(c[i].id@) {
                Err(ProjectErrorView::DuplicateInstanceId(c[i].id@))
            } else {
                members_check(primary_id, c, i + 1)
            },
        )
    }
}

pub open spec fn bundle_check(b: AssemblyBundle) -> Result<(), ProjectErrorView> {
    if spec_is_blank(b.name@) {
        Err(ProjectErrorView::EmptyName("assembly bundle"@))
    } else {
        let primary = port_names(b.primary.ports@);
        let ids = member_ids(b.children@);
        let ports = member_ports(b.children@);
        then_check(
            member_check(b.primary, "primary assembly member"@),
            then_check(
                members_check(b.primary.id@, b.children@, 0),
                then_check(
                    attachments_check(b.attachments@, primary, ids, ports, 0),
                    exports_check(b.exports@, primary, ids, ports, 0),
                ),
            ),
        )
    }
}

fn validate_members(primary_id: &String, children: &[AssemblyMember]) -> (r: Result<
    (Vec<String>, Vec<Vec<String>>),
    ProjectError,
>)
    ensures
        match r {
            Ok((ids, ports)) => members_check(primary_id@, children@, 0) is Ok && views(ids@)
                == member_ids(children@) && ports@.map_values(|v: Vec<String>| views(v@))
                == member_ports(children@) && ids@.len() == ports@.len(),
            Err(e) => members_check(primary_id@, children@, 0) == Err::<(), ProjectErrorView>(e@),
        },
{
    let mut ids: Vec<String> = Vec::new();
    let mut ports: Vec<Vec<String>> = Vec::new();
    let mut i: usize = 0;
    while i < children.len()
        invariant
            i <= children@.len(),
            ids@.len() == i,
            ports@.len() == i,
            views(ids@) == member_ids(children@.take(i as int)),
            ports@.map_values(|v: Vec<String>| views(v@)) == member_ports(children@.take(i as int)),
            members_check(primary_id@, children@, 0) == members_check(
                primary_id@,
                children@,
                i as int,
            ),
        decreases children.len() - i,
    {
        let child = &children[i];
        match child.validate("assembly member") {
            Err(e) => {
                return Err(e);
            },
            Ok(()) => {},
        }
        if str_eq(child.id.as_str(), primary_id.as_str()) || contains_str(
            ids.as_slice(),
            child.id.as_str(),
        ) {
            return Err(ProjectError::DuplicateInstanceId(child.id.clone()));
        }
        let ghost ids_before = ids@;
        let ghost ports_before = ports@;
        ids.push(child.id.clone());
        ports.push(collect_port_names(child.ports.as_slice()));
        assert(children@.take(i + 1) =~= children@.take(i as int).push(children@[i as int]));
        assert(views(ids@) =~= views(ids_before).push(children@[i as int].id@));
        assert(member_ids(children@.take(i + 1)) =~= member_ids(children@.take(i as int)).push(
            children@[i as int].id@,
        ));
        assert(ports@.map_values(|v: Vec<String>| views(v@)) =~= ports_before.map_values(
            |v: Vec<String>| views(v@),
        ).push(port_names(children@[i as int].ports@)));
        assert(member_ports(children@.take(i + 1)) =~= member_ports(children@.take(i as int)).push(
            port_names(children@[i as int].ports@),
        ));
        i = i + 1;
    }
    assert(children@.take(children@.len() as int) =~= children@);
    Ok((ids, ports))
}

impl AssemblyBundle {
    pub fn new(name: &str, primary: AssemblyMember) -> (r: Self)
        ensures
            r.format_version@ == PROJECT_FORMAT_VERSION@,
            r.name@ == name@,
            r.description is None,
            r.primary == primary,
            r.children@.len() == 0,
            r.attachments@.len() == 0,
            r.exports@.len() == 0,
    {
        AssemblyBundle {
            format_version: owned(PROJECT_FORMAT_VERSION),
            name: owned(name),
            description: None,
            primary,
            children: Vec::new(),
            attachments: Vec::new(),
            exports: Vec::new(),
        }
    }

    pub fn validate(&self) -> (r: Result<(), ProjectError>)
        ensures
            outcome(r) == bundle_check(*self),
    {
        if is_blank(self.name.as_str()) {
            return Err(ProjectError::EmptyName("assembly bundle"));
        }
        match self.primary.validate("primary assembly member") {
            Err(e) => {
                return Err(e);
            },
            Ok(()) => {},
        }
        let (ids, ports) = match validate_members(&self.primary.id, self.children.as_slice()) {
            Err(e) => {
                return Err(e);
            },
            Ok(found) => found,
        };
        let primary = collect_port_names(self.primary.ports.as_slice());
        match validate_attachments(
            self.attachments.as_slice(),
            primary.as_slice(),
            ids.as_slice(),
            ports.as_slice(),
        ) {
            Err(e) => {
                return Err(e);
            },
            Ok(()) => {},
        }
        validate_exports(self.exports.as_slice(), primary.as_slice(), ids.as_slice(), ports.as_slice())
    }
}

} // verus!

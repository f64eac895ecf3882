//! The edits the board editor makes when its controls are used: a member's
//! source, name and ports, the wires drawn on the canvas, the exported pins
//! and the primary's firmware.

use vstd::prelude::*;
use crate::gui::board_editor::derive_ports_from_net_names;
use crate::gui::board_editor::{ports_derived, ports_from_pcb, derive_ports_from_loaded_pcb};
use crate::gui::board_editor::{display_member_label, spec_member_label, PRIMARY_MEMBER_ID};
use crate::gui::board_editor_state::{
    child_position, editor_rest_same, epview, export_toggled, first_named, names_without,
    wire_added, wiring_frame, BoardEditorState,
};
use crate::project::definitions::AttachmentEndpoint;
use crate::gui::pcb_view::LoadedPcb;
use crate::kicad::opt_view;
use crate::project::assembly_bundle::AssemblyMember;
use crate::project::definitions::{
    DefinitionReference, DefinitionReferenceKind, DefinitionSource, DefinitionSourceKind,
    PortClass, PortDefinition, PortDirection,
};
use crate::text::{
    chars_of, decimal, owned, push_all, push_str, spec_decimal, spec_trim, str_eq, string_of, trim, views,
};

verus! {

/// A change to one member of the assembly, as the member's controls make it.
pub enum MemberEdit {
    /// Ports derived afresh (see `derive_member_ports`).
    DerivedPorts(Vec<PortDefinition>),
    /// A passive port named `port_<n>`, `n` one past the port count.
    AddPort,
    ClearPorts,
    /// The port at this position goes (no change past the end).
    RemovePort(usize),
    /// The kind of source chosen; a built-in source takes `default_module`.
    SourceKind { kind: DefinitionSourceKind, default_module: String },
    /// A built-in model chosen, with the ports derived from it and the
    /// behavior its model suggests.
    BuiltinModel { name: String, ports: Vec<PortDefinition>, behavior: Option<String> },
    /// The PCB path as typed; it is kept trimmed.
    PcbPath(String),
    Name(String),
}

/// The fields no member edit touches are as they were.
pub open spec fn member_frame(m0: AssemblyMember, m1: AssemblyMember) -> bool {
    &&& m1.id == m0.id
    &&& m1.kind == m0.kind
    &&& m1.label == m0.label
    &&& m1.description == m0.description
    &&& m1.embedded_host_board == m0.embedded_host_board
    &&& m1.firmware == m0.firmware
    &&& m1.note == m0.note
}

/// The source after choosing `kind`: unchanged when it is the kind already;
/// a PCB source keeps its path (an empty one if it had none); a built-in or
/// virtual choice becomes the built-in `default_module`.
pub open spec fn source_for_kind(s0: DefinitionSource, kind: DefinitionSourceKind, default_module: Seq<char>, s1: DefinitionSource) -> bool {
    if s0.kind == kind {
        s1 == s0
    } else {
        match kind {
            DefinitionSourceKind::KicadPcb => {
                &&& s1.kind == DefinitionSourceKind::KicadPcb
                &&& opt_view(s1.path) == (if s0.path is None { Some(Seq::<char>::empty()) } else { opt_view(s0.path) })
                &&& s1.builtin_name is None
            },
            _ => {
                &&& s1.kind == DefinitionSourceKind::BuiltinBoardModel
                &&& s1.path is None
                &&& opt_view(s1.builtin_name) == Some(default_module)
            },
        }
    }
}

/// `m1` is `m0` after `edit`.
pub open spec fn member_edited(m0: AssemblyMember, edit: MemberEdit, m1: AssemblyMember) -> bool {
    &&& member_frame(m0, m1)
    &&& match edit {
        MemberEdit::DerivedPorts(ports) => {
            &&& m1.ports == ports
            &&& m1.name == m0.name && m1.source == m0.source && m1.behavior == m0.behavior
        },
        MemberEdit::AddPort => {
            let added = m1.ports@.last();
            &&& m1.ports@.len() == m0.ports@.len() + 1
            &&& m1.ports@.drop_last() == m0.ports@
            &&& added.name@ == "port_"@ + spec_decimal(m0.ports@.len() + 1)
            &&& added.class == PortClass::Passive && added.direction == PortDirection::Passive
            &&& added.aliases@.len() == 0 && added.note is None
            &&& m1.name == m0.name && m1.source == m0.source && m1.behavior == m0.behavior
        },
        MemberEdit::ClearPorts => {
            &&& m1.ports@.len() == 0
            &&& m1.name == m0.name && m1.source == m0.source && m1.behavior == m0.behavior
        },
        MemberEdit::RemovePort(i) => {
            &&& m1.ports@ == (if i < m0.ports@.len() { m0.ports@.remove(i as int) } else { m0.ports@ })
            &&& m1.name == m0.name && m1.source == m0.source && m1.behavior == m0.behavior
        },
        MemberEdit::SourceKind { kind, default_module } => {
            &&& source_for_kind(m0.source, kind, default_module@, m1.source)
            &&& m1.name == m0.name && m1.ports == m0.ports && m1.behavior == m0.behavior
        },
        MemberEdit::BuiltinModel { name, ports, behavior } => {
            &&& m1.source.kind == DefinitionSourceKind::BuiltinBoardModel
            &&& m1.source.path is None
            &&& opt_view(m1.source.builtin_name) == Some(name@)
            &&& m1.ports == ports
            &&& match behavior {
                None => m1.behavior is None,
                Some(b) => m1.behavior matches Some(r) && r.kind
                    == DefinitionReferenceKind::BehaviorDefinition && r.path is None && opt_view(
                    r.builtin_name,
                ) == Some(b@) && r.host_board is None,
            }
            &&& m1.name == m0.name
        },
        MemberEdit::PcbPath(text) => {
            &&& m1.source.kind == m0.source.kind
            &&& m1.source.builtin_name == m0.source.builtin_name
            &&& opt_view(m1.source.path) == Some(spec_trim(text@))
            &&& m1.name == m0.name && m1.ports == m0.ports && m1.behavior == m0.behavior
        },
        MemberEdit::Name(name) => {
            &&& m1.name == name
            &&& m1.source == m0.source && m1.ports == m0.ports && m1.behavior == m0.behavior
        },
    }
}

/// Every member has fewer than `u64::MAX` ports.
pub open spec fn port_counts_fit(c: Seq<AssemblyMember>) -> bool {
    forall|k: int| 0 <= k < c.len() ==> #[trigger] c[k].ports@.len() < u64::MAX
}

fn apply_member_edit(member: &mut AssemblyMember, edit: MemberEdit)
    requires
        edit is AddPort ==> old(member).ports@.len() < u64::MAX,
    ensures
        member_edited(*old(member), edit, *final(member)),
{
    match edit {
        MemberEdit::DerivedPorts(ports) => {
            member.ports = ports;
        },
        MemberEdit::AddPort => {
            let count = member.ports.len() as u64;
            let mut name = chars_of("port_");
            push_all(&mut name, &decimal(count + 1));
            let text = string_of(&name);
            member.ports.push(PortDefinition::new(text.as_str(), PortClass::Passive, PortDirection::Passive));
            assert(member.ports@.drop_last() =~= old(member).ports@);
        },
        MemberEdit::ClearPorts => {
            member.ports = Vec::new();
        },
        MemberEdit::RemovePort(i) => {
            if i < member.ports.len() {
                member.ports.remove(i);
            }
        },
        MemberEdit::SourceKind { kind, default_module } => {
            let same = match (member.source.kind, kind) {
                (DefinitionSourceKind::KicadPcb, DefinitionSourceKind::KicadPcb) => true,
                (DefinitionSourceKind::BuiltinBoardModel, DefinitionSourceKind::BuiltinBoardModel) => true,
                (DefinitionSourceKind::Virtual, DefinitionSourceKind::Virtual) => true,
                _ => false,
            };
            if !same {
                match kind {
                    DefinitionSourceKind::KicadPcb => {
                        member.source.kind = DefinitionSourceKind::KicadPcb;
                        if member.source.path.is_none() {
                            member.source.path = Some(String::new());
                        }
                        member.source.builtin_name = None;
                    },
                    _ => {
                        member.source = DefinitionSource::builtin_board_model(default_module.as_str());
                    },
                }
            }
        },
        MemberEdit::BuiltinModel { name, ports, behavior } => {
            member.source = DefinitionSource::builtin_board_model(name.as_str());
            member.ports = ports;
            member.behavior = match behavior {
                Some(b) => Some(DefinitionReference::builtin(DefinitionReferenceKind::BehaviorDefinition, b.as_str())),
                None => None,
            };
        },
        MemberEdit::PcbPath(text) => {
            let trimmed = trim(&chars_of(text.as_str()));
            member.source.path = Some(string_of(&trimmed));
        },
        MemberEdit::Name(name) => {
            member.name = name;
        },
    }
}

impl BoardEditorState {
    /// Applies `edit` to member `member_id` (the primary, else the first
    /// child so named); derived ports are announced. A member that is gone
    /// is handled as `handle_missing_selected_member` does. Returns whether
    /// the member was found.
    pub fn edit_member(&mut self, member_id: &str, edit: MemberEdit) -> (found: bool)
        requires
            edit is AddPort ==> old(self).bundle.primary.ports@.len() < u64::MAX && port_counts_fit(
                old(self).bundle.children@,
            ),
        ensures
            found == (old(self).bundle.primary.id@ == member_id@ || exists|k: int|
                0 <= k < old(self).bundle.children@.len() && #[trigger] old(self).bundle.children@[k].id@
                    == member_id@),
            final(self).bundle.name == old(self).bundle.name,
            final(self).bundle.format_version == old(self).bundle.format_version,
            final(self).bundle.description == old(self).bundle.description,
            final(self).bundle.attachments == old(self).bundle.attachments,
            final(self).bundle.exports == old(self).bundle.exports,
            found ==> {
                let c0 = old(self).bundle.children@;
                let c1 = final(self).bundle.children@;
                &&& editor_rest_same(*old(self), *final(self))
                &&& old(self).bundle.primary.id@ == member_id@ ==> {
                    &&& member_edited(old(self).bundle.primary, edit, final(self).bundle.primary)
                    &&& final(self).bundle.children == old(self).bundle.children
                }
                &&& old(self).bundle.primary.id@ != member_id@ ==> {
                    &&& final(self).bundle.primary == old(self).bundle.primary
                    &&& c1.len() == c0.len()
                    &&& forall|k: int|
                        0 <= k < c0.len() ==> (#[trigger] first_named(c0, member_id@, k) ==> c1
                            == c0.update(k, c1[k]) && member_edited(c0[k], edit, c1[k]))
                }
                &&& edit is DerivedPorts ==> final(self).notice@ == "Derived "@ + spec_decimal(
                    edit->DerivedPorts_0@.len(),
                ) + " port(s) for "@ + member_id@
                &&& !(edit is DerivedPorts) ==> final(self).notice == old(self).notice
            },
            !found ==> {
                &&& final(self).bundle == old(self).bundle
                &&& old(self).selected_member_id@ == member_id@ ==> final(self).selected_member_id@
                    == crate::gui::board_editor::PRIMARY_MEMBER_ID@
                &&& old(self).selected_member_id@ != member_id@ ==> final(self).selected_member_id
                    == old(self).selected_member_id
                &&& opt_view(old(self).preview_member_id) == Some(member_id@) ==> final(self).preview_member_id is None
                &&& opt_view(old(self).preview_member_id) != Some(member_id@) ==> final(self).preview_member_id
                    == old(self).preview_member_id
                &&& final(self).notice@ == "Selected module "@ + member_id@ + " is no longer available."@
            },
    {
        let derived_count: Option<u64> = match &edit {
            MemberEdit::DerivedPorts(ports) => Some(ports.len() as u64),
            _ => None,
        };
        if crate::text::str_eq(self.bundle.primary.id.as_str(), member_id) {
            apply_member_edit(&mut self.bundle.primary, edit);
        } else {
            match child_position(&self.bundle.children, member_id) {
                Some(k) => {
                    let ghost c0 = old(self).bundle.children@;
                    assert(c0[k as int].ports@.len() == c0[k as int].ports@.len());
                    let mut member = self.bundle.children.remove(k);
                    apply_member_edit(&mut member, edit);
                    self.bundle.children.insert(k, member);
                    assert(self.bundle.children@ =~= c0.update(k as int, self.bundle.children@[k as int]));
                    assert forall|j: int|
                        0 <= j < c0.len() && #[trigger] first_named(c0, member_id@, j) implies j == k by {
                        if j < k {
                            assert(c0[j].id@ != member_id@);
                        } else if j > k {
                            assert(c0[k as int].id@ == member_id@);
                        }
                    }
                },
                None => {
                    self.handle_missing_selected_member(member_id);
                    return false;
                },
            }
        }
        match derived_count {
            Some(count) => {
                let mut text = chars_of("Derived ");
                push_all(&mut text, &decimal(count));
                push_str(&mut text, " port(s) for ");
                push_str(&mut text, member_id);
                self.notice = string_of(&text);
            },
            None => {},
        }
        true
    }
}


/// What the pointer does on the wiring canvas.
pub enum CanvasEvent {
    /// A port was clicked.
    PortClicked(AttachmentEndpoint),
    /// A drag started on a port.
    PortDragStarted(AttachmentEndpoint),
    /// The pointer was released, over the port given if it is over one.
    PointerReleased(Option<AttachmentEndpoint>),
    /// The wire at this position was clicked.
    WireClicked(usize),
    /// The canvas was clicked away from any member, port or wire.
    EmptyCanvasClicked,
}

/// Only the wire being drawn, the selected wire and the selected member
/// may differ.
pub open spec fn canvas_frame(a: BoardEditorState, b: BoardEditorState) -> bool {
    &&& b.open == a.open
    &&& b.bundle == a.bundle
    &&& b.bundle_path == a.bundle_path
    &&& b.notice == a.notice
    &&& b.collapsed_member_ids == a.collapsed_member_ids
    &&& b.expose_pin_mode == a.expose_pin_mode
    &&& b.preview_member_id == a.preview_member_id
}

/// `s1` is `s0` after `event` on the canvas. A click on a port toggles its
/// exported pin while pins are exposed; otherwise it starts a wire, cancels
/// the wire when it is the port the wire started from, or ends the wire
/// there. Releasing over another port ends a dragged wire there; releasing
/// anywhere drops the wire being drawn.
pub open spec fn canvas_stepped(s0: BoardEditorState, event: CanvasEvent, s1: BoardEditorState) -> bool {
    match event {
        CanvasEvent::PortClicked(e) => if s0.expose_pin_mode {
            export_toggled(s0, e, s1)
        } else {
            match s0.wire_drag_from {
                None => {
                    &&& canvas_frame(s0, s1)
                    &&& s1.selected_member_id == s0.selected_member_id
                    &&& s1.selected_attachment_index == s0.selected_attachment_index
                    &&& s1.wire_drag_from == Some(e)
                },
                Some(f) => if epview(f) == epview(e) {
                    &&& canvas_frame(s0, s1)
                    &&& s1.selected_member_id == s0.selected_member_id
                    &&& s1.selected_attachment_index == s0.selected_attachment_index
                    &&& s1.wire_drag_from is None
                } else {
                    wire_added(s0, f, e, s1) && s1.wire_drag_from is None
                },
            }
        },
        CanvasEvent::PortDragStarted(e) => {
            &&& canvas_frame(s0, s1)
            &&& s1.selected_member_id == s0.selected_member_id
            &&& s1.selected_attachment_index == s0.selected_attachment_index
            &&& s1.wire_drag_from == (if s0.expose_pin_mode { s0.wire_drag_from } else { Some(e) })
        },
        CanvasEvent::PointerReleased(over) => {
            &&& s1.wire_drag_from is None
            &&& match (s0.wire_drag_from, over) {
                (Some(f), Some(t)) => if epview(f) != epview(t) {
                    wire_added(s0, f, t, s1)
                } else {
                    canvas_frame(s0, s1) && s1.selected_member_id == s0.selected_member_id
                        && s1.selected_attachment_index == s0.selected_attachment_index
                },
                _ => canvas_frame(s0, s1) && s1.selected_member_id == s0.selected_member_id
                    && s1.selected_attachment_index == s0.selected_attachment_index,
            }
        },
        CanvasEvent::WireClicked(i) => {
            &&& canvas_frame(s0, s1)
            &&& s1.selected_member_id == s0.selected_member_id
            &&& s1.selected_attachment_index == Some(i)
            &&& s1.wire_drag_from is None
        },
        CanvasEvent::EmptyCanvasClicked => {
            &&& canvas_frame(s0, s1)
            &&& s1.selected_attachment_index is None
            &&& s1.wire_drag_from == s0.wire_drag_from
            &&& s1.selected_member_id@ == (if s0.wire_drag_from is None {
                PRIMARY_MEMBER_ID@
            } else {
                s0.selected_member_id@
            })
        },
    }
}

impl BoardEditorState {
    /// Takes one pointer event on the wiring canvas (see `canvas_stepped`).
    pub fn apply_canvas_event(&mut self, event: CanvasEvent)
        requires
            event is PortClicked && old(self).expose_pin_mode ==> old(self).bundle.exports@.len() + 2 <= u64::MAX,
        ensures
            canvas_stepped(*old(self), event, *final(self)),
    {
        match event {
            CanvasEvent::PortClicked(endpoint) => {
                if self.expose_pin_mode {
                    self.toggle_export_for_endpoint(endpoint);
                } else {
                    let from = self.wire_drag_from.take();
                    match from {
                        None => {
                            self.wire_drag_from = Some(endpoint);
                        },
                        Some(f) => {
                            if !same_endpoint(&f, &endpoint) {
                                self.add_attachment_if_new(f, endpoint);
                            }
                        },
                    }
                }
            },
            CanvasEvent::PortDragStarted(endpoint) => {
                if !self.expose_pin_mode {
                    self.wire_drag_from = Some(endpoint);
                }
            },
            CanvasEvent::PointerReleased(over) => {
                let from = self.wire_drag_from.take();
                match (from, over) {
                    (Some(f), Some(t)) => {
                        if !same_endpoint(&f, &t) {
                            self.add_attachment_if_new(f, t);
                        }
                    },
                    _ => {},
                }
            },
            CanvasEvent::WireClicked(index) => {
                self.selected_attachment_index = Some(index);
                self.wire_drag_from = None;
            },
            CanvasEvent::EmptyCanvasClicked => {
                self.selected_attachment_index = None;
                if self.wire_drag_from.is_none() {
                    self.selected_member_id = owned(PRIMARY_MEMBER_ID);
                }
            },
        }
    }

    /// Folds or unfolds `member` on the canvas and says which.
    pub fn toggle_member_collapsed(&mut self, member: &AssemblyMember)
        ensures
            final(self).bundle == old(self).bundle,
            final(self).selected_member_id == old(self).selected_member_id,
            final(self).wire_drag_from == old(self).wire_drag_from,
            final(self).selected_attachment_index == old(self).selected_attachment_index,
            final(self).expose_pin_mode == old(self).expose_pin_mode,
            final(self).preview_member_id == old(self).preview_member_id,
            views(old(self).collapsed_member_ids@).contains(member.id@) ==> {
                &&& views(final(self).collapsed_member_ids@) == names_without(
                    views(old(self).collapsed_member_ids@),
                    member.id@,
                )
                &&& final(self).notice@ == spec_member_label(*member) + " expanded."@
            },
            !views(old(self).collapsed_member_ids@).contains(member.id@) ==> {
                &&& views(final(self).collapsed_member_ids@) == views(old(self).collapsed_member_ids@).push(member.id@)
                &&& final(self).notice@ == spec_member_label(*member) + " collapsed."@
            },
    {
        let ghost n0 = views(self.collapsed_member_ids@);
        let ghost id = member.id@;
        let mut kept: Vec<String> = Vec::new();
        let mut found = false;
        let mut j: usize = 0;
        while j < self.collapsed_member_ids.len()
            invariant
                n0 == views(self.collapsed_member_ids@),
                id == member.id@,
                j <= n0.len(),
                views(kept@) == names_without(n0.take(j as int), id),
                found == (exists|k: int| 0 <= k < j && #[trigger] n0[k] == id),
            decreases self.collapsed_member_ids.len() - j,
        {
            assert(n0.take(j + 1).drop_last() =~= n0.take(j as int));
            assert(n0.take(j + 1).last() == self.collapsed_member_ids@[j as int]@);
            let ghost before = views(kept@);
            if str_eq(self.collapsed_member_ids[j].as_str(), member.id.as_str()) {
                assert(n0[j as int] == id);
                found = true;
            } else {
                kept.push(self.collapsed_member_ids[j].clone());
                assert(views(kept@) =~= before.push(self.collapsed_member_ids@[j as int]@));
            }
            j = j + 1;
        }
        assert(found == n0.contains(id)) by {
            if n0.contains(id) {
                let k = choose|k: int| 0 <= k < n0.len() && n0[k] == id;
                assert(n0[k] == id);
            }
        }
        assert(n0.take(n0.len() as int) =~= n0);
        let mut text = chars_of(display_member_label(member).as_str());
        if found {
            self.collapsed_member_ids = kept;
            push_str(&mut text, " expanded.");
        } else {
            self.collapsed_member_ids.push(member.id.clone());
            assert(views(self.collapsed_member_ids@) =~= n0.push(member.id@));
            push_str(&mut text, " collapsed.");
        }
        self.notice = string_of(&text);
    }
}

fn same_endpoint(a: &AttachmentEndpoint, b: &AttachmentEndpoint) -> (r: bool)
    ensures
        r == (epview(*a) == epview(*b)),
{
    let same_instance = match (&a.instance_id, &b.instance_id) {
        (Some(x), Some(y)) => str_eq(x.as_str(), y.as_str()),
        (None, None) => true,
        _ => false,
    };
    same_instance && str_eq(a.port.as_str(), b.port.as_str())
}

} // verus!

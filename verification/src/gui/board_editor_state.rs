//! The board editor's state: the bundle being edited, which member and wire
//! are selected, and the notice shown; with the edits the editor makes to
//! members, wires and exported pins.
//!
//! Where members sit on the canvas and the PCBs loaded for them belong to
//! the window and are kept there.

use vstd::prelude::*;
use crate::gui::board_editor::{
    derive_ports_from_loaded_pcb, pair_views, ports_from_pcb, ports_derived, spec_default_module_name, best_primary_port_match, default_builtin_module_name, default_export_name_for_endpoint,
    derive_ports_from_net_names, endpoint_display, first_free_name, make_unique_export_name,
    match_scores, member_id_prefix, member_ids, next_member_id, spec_default_export_name,
    spec_endpoint_display, spec_unique_export_name, unique_best, PRIMARY_MEMBER_ID,
};
use crate::gui::pcb_view::LoadedPcb;
use crate::kicad::opt_view;
use crate::project::error::spec_error_message;
use crate::project::paths::{file_name, spec_file_stem, stem_of};
use crate::project::assembly_bundle::{bundle_check, AssemblyBundle, AssemblyMember, AssemblyMemberKind};
use crate::project::definitions::{
    AssemblyExport, AttachmentBinding, AttachmentEndpoint, DefinitionReference,
    DefinitionReferenceKind, DefinitionSource, DefinitionSourceKind, PortDefinition,
};
use crate::project::shared::{spec_host_board_label, spec_host_board_model, spec_host_board_short_name, BindingMode, HostBoard};
use crate::text::{
    chars_of, decimal, is_blank, owned, push_all, push_str, spec_decimal, spec_is_blank, str_eq,
    string_of, views,
};

verus! {

/// An endpoint as plain values: instance id and port.
pub type EndpointView = (Option<Seq<char>>, Seq<char>);

pub open spec fn epview(e: AttachmentEndpoint) -> EndpointView {
    (opt_view(e.instance_id), e.port@)
}

/// A wire as plain values: its two endpoints, mode and note.
pub type AttachmentView = (EndpointView, EndpointView, BindingMode, Option<Seq<char>>);

pub open spec fn aview(a: AttachmentBinding) -> AttachmentView {
    (epview(a.from), epview(a.to), a.mode, opt_view(a.note))
}

pub open spec fn aviews(v: Seq<AttachmentBinding>) -> Seq<AttachmentView> {
    v.map_values(|a: AttachmentBinding| aview(a))
}

/// Wire `a` joins `f` and `t`, either way round.
pub open spec fn joins(a: AttachmentView, f: EndpointView, t: EndpointView) -> bool {
    (a.0 == f && a.1 == t) || (a.0 == t && a.1 == f)
}

/// Some wire joins `f` and `t`.
pub open spec fn wired(atts: Seq<AttachmentView>, f: EndpointView, t: EndpointView) -> bool {
    exists|k: int| 0 <= k < atts.len() && #[trigger] joins(atts[k], f, t)
}

fn endpoint_eq(a: &AttachmentEndpoint, b: &AttachmentEndpoint) -> (r: bool)
    ensures
        r == (epview(*a) == epview(*b)),
{
    let same_instance = match (&a.instance_id, &b.instance_id) {
        (Some(x), Some(y)) => str_eq(x.as_str(), y.as_str()),
        (None, None) => true,
        _ => false,
    };
    same_instance && str_eq(a.port.as_str(), b.port.as_str())
}

fn copy_endpoint(e: &AttachmentEndpoint) -> (r: AttachmentEndpoint)
    ensures
        r == *e,
{
    AttachmentEndpoint {
        instance_id: match &e.instance_id {
            Some(id) => Some(id.clone()),
            None => None,
        },
        port: e.port.clone(),
    }
}

/// Whether the endpoint belongs to the member `id`.
pub open spec fn on_member(e: AttachmentEndpoint, id: Seq<char>) -> bool {
    opt_view(e.instance_id) == Some(id)
}

fn endpoint_on_member(e: &AttachmentEndpoint, id: &str) -> (r: bool)
    ensures
        r == on_member(*e, id@),
{
    match &e.instance_id {
        Some(x) => str_eq(x.as_str(), id),
        None => false,
    }
}

/// The children other than `id`, in order.
pub open spec fn children_without(c: Seq<AssemblyMember>, id: Seq<char>) -> Seq<AssemblyMember>
    decreases c.len(),
{
    if c.len() == 0 {
        Seq::empty()
    } else {
        let rest = children_without(c.drop_last(), id);
        if c.last().id@ == id {
            rest
        } else {
            rest.push(c.last())
        }
    }
}

/// The wires with no end on member `id`, in order.
pub open spec fn wires_without(a: Seq<AttachmentBinding>, id: Seq<char>) -> Seq<AttachmentBinding>
    decreases a.len(),
{
    if a.len() == 0 {
        Seq::empty()
    } else {
        let rest = wires_without(a.drop_last(), id);
        if on_member(a.last().from, id) || on_member(a.last().to, id) {
            rest
        } else {
            rest.push(a.last())
        }
    }
}

/// The exported pins not on member `id`, in order.
pub open spec fn exports_without(e: Seq<AssemblyExport>, id: Seq<char>) -> Seq<AssemblyExport>
    decreases e.len(),
{
    if e.len() == 0 {
        Seq::empty()
    } else {
        let rest = exports_without(e.drop_last(), id);
        if on_member(e.last().source, id) {
            rest
        } else {
            rest.push(e.last())
        }
    }
}

/// The names other than `id`, in order.
pub open spec fn names_without(n: Seq<Seq<char>>, id: Seq<char>) -> Seq<Seq<char>>
    decreases n.len(),
{
    if n.len() == 0 {
        Seq::empty()
    } else {
        let rest = names_without(n.drop_last(), id);
        if n.last() == id {
            rest
        } else {
            rest.push(n.last())
        }
    }
}

/// The first export whose pin is `e`.
pub open spec fn export_position(exports: Seq<AssemblyExport>, e: EndpointView) -> Option<int> {
    if exists|k: int| 0 <= k < exports.len() && #[trigger] epview(exports[k].source) == e {
        Some(choose|k: int| 0 <= k < exports.len() && #[trigger] epview(exports[k].source) == e && forall|j: int|
            0 <= j < k ==> #[trigger] epview(exports[j].source) != e)
    } else {
        None
    }
}

/// The editor's state, apart from what only drawing needs.
pub struct BoardEditorState {
    pub open: bool,
    pub bundle: AssemblyBundle,
    pub bundle_path: String,
    pub selected_member_id: String,
    pub notice: String,
    /// Members shown folded on the canvas, each listed once.
    pub collapsed_member_ids: Vec<String>,
    pub expose_pin_mode: bool,
    pub wire_drag_from: Option<AttachmentEndpoint>,
    pub selected_attachment_index: Option<usize>,
    pub preview_member_id: Option<String>,
}

impl BoardEditorState {
    /// A new editor on an untitled assembly whose primary member is the
    /// Mega 2560 model with its ports (`primary_ports`, derived from the
    /// model's nets).
    pub fn new(primary_ports: Vec<PortDefinition>) -> (r: Self)
        ensures
            !r.open,
            r.bundle.name@ == "Untitled Board Assembly"@,
            r.bundle.primary.id@ == PRIMARY_MEMBER_ID@,
            r.bundle.primary.kind == AssemblyMemberKind::Board,
            r.bundle.primary.name@ == "controller"@,
            r.bundle.primary.source.builtin_name matches Some(n) && n@ == spec_host_board_model(
                HostBoard::Mega2560Rev3,
            ),
            r.bundle.primary.source.path is None,
            r.bundle.primary.embedded_host_board == Some(HostBoard::Mega2560Rev3),
            r.bundle.primary.ports == primary_ports,
            r.bundle.children@.len() == 0,
            r.bundle.attachments@.len() == 0,
            r.bundle.exports@.len() == 0,
            r.bundle_path@.len() == 0,
            r.selected_member_id@ == PRIMARY_MEMBER_ID@,
            r.notice@ == "Choose a controller, add modules, then wire them together."@,
            r.collapsed_member_ids@.len() == 0,
            !r.expose_pin_mode,
            r.wire_drag_from is None,
            r.selected_attachment_index is None,
            r.preview_member_id is None,
    {
        let mut primary = AssemblyMember::new(
            PRIMARY_MEMBER_ID,
            AssemblyMemberKind::Board,
            "controller",
            DefinitionSource::builtin_board_model(HostBoard::Mega2560Rev3.builtin_board_model()),
        );
        primary.embedded_host_board = Some(HostBoard::Mega2560Rev3);
        primary.ports = primary_ports;
        BoardEditorState {
            open: false,
            bundle: AssemblyBundle::new("Untitled Board Assembly", primary),
            bundle_path: String::new(),
            selected_member_id: owned(PRIMARY_MEMBER_ID),
            notice: owned("Choose a controller, add modules, then wire them together."),
            collapsed_member_ids: Vec::new(),
            expose_pin_mode: false,
            wire_drag_from: None,
            selected_attachment_index: None,
            preview_member_id: None,
        }
    }

    /// The member with id `id`: the primary, else the first child so named.
    pub fn find_member(&self, id: &str) -> (r: Option<&AssemblyMember>)
        ensures
            self.bundle.primary.id@ == id@ ==> r == Some(&self.bundle.primary),
            self.bundle.primary.id@ != id@ ==> match r {
                Some(m) => exists|k: int|
                    0 <= k < self.bundle.children@.len() && *m == self.bundle.children@[k]
                        && m.id@ == id@ && forall|j: int|
                        0 <= j < k ==> #[trigger] self.bundle.children@[j].id@ != id@,
                None => forall|k: int|
                    0 <= k < self.bundle.children@.len() ==> #[trigger] self.bundle.children@[k].id@
                        != id@,
            },
    {
        if str_eq(self.bundle.primary.id.as_str(), id) {
            return Some(&self.bundle.primary);
        }
        let mut i: usize = 0;
        while i < self.bundle.children.len()
            invariant
                i <= self.bundle.children@.len(),
                self.bundle.primary.id@ != id@,
                forall|j: int| 0 <= j < i ==> #[trigger] self.bundle.children@[j].id@ != id@,
            decreases self.bundle.children.len() - i,
        {
            if str_eq(self.bundle.children[i].id.as_str(), id) {
                return Some(&self.bundle.children[i]);
            }
            i = i + 1;
        }
        None
    }

    /// Whether some wire joins `from` and `to`, either way round.
    pub fn attachment_exists(&self, from: &AttachmentEndpoint, to: &AttachmentEndpoint) -> (r: bool)
        ensures
            r == wired(aviews(self.bundle.attachments@), epview(*from), epview(*to)),
    {
        let ghost av = aviews(self.bundle.attachments@);
        let mut i: usize = 0;
        while i < self.bundle.attachments.len()
            invariant
                av == aviews(self.bundle.attachments@),
                i <= av.len(),
                forall|k: int| 0 <= k < i ==> !#[trigger] joins(av[k], epview(*from), epview(*to)),
            decreases self.bundle.attachments.len() - i,
        {
            let a = &self.bundle.attachments[i];
            if (endpoint_eq(&a.from, from) && endpoint_eq(&a.to, to)) || (endpoint_eq(&a.from, to)
                && endpoint_eq(&a.to, from)) {
                assert(joins(av[i as int], epview(*from), epview(*to)));
                return true;
            }
            i = i + 1;
        }
        false
    }

    /// Wires `from` to `to` unless that joins a pin to itself or the wire
    /// exists already (which the notice then says); a new wire is selected.
    pub fn add_attachment_if_new(&mut self, from: AttachmentEndpoint, to: AttachmentEndpoint)
        ensures
            wire_added(*old(self), from, to, *final(self)),
            final(self).wire_drag_from == old(self).wire_drag_from,
    {
        if endpoint_eq(&from, &to) {
            return;
        }
        if self.attachment_exists(&from, &to) {
            self.notice = owned("That wire already exists.");
            return;
        }
        let mut text = chars_of("Connected ");
        push_str(&mut text, endpoint_display(&from).as_str());
        push_str(&mut text, " -> ");
        push_str(&mut text, endpoint_display(&to).as_str());
        push_str(&mut text, ".");
        let ghost before = aviews(self.bundle.attachments@);
        self.bundle.attachments.push(AttachmentBinding { from, to, mode: BindingMode::Bus, note: None });
        assert(aviews(self.bundle.attachments@) =~= before.push(
            (epview(from), epview(to), BindingMode::Bus, None),
        ));
        self.selected_attachment_index = Some(self.bundle.attachments.len() - 1);
        self.notice = string_of(&text);
    }

    /// Deletes the selected wire, if one is selected, and clears the
    /// selection and any wire being drawn.
    pub fn delete_selected_attachment(&mut self)
        ensures
            final(self).bundle.primary == old(self).bundle.primary,
            final(self).bundle.children == old(self).bundle.children,
            final(self).bundle.exports == old(self).bundle.exports,
            final(self).selected_member_id == old(self).selected_member_id,
            match old(self).selected_attachment_index {
                None => final(self).bundle.attachments == old(self).bundle.attachments
                    && final(self).selected_attachment_index is None && final(self).notice == old(
                    self,
                ).notice && final(self).wire_drag_from == old(self).wire_drag_from,
                Some(i) => if i >= old(self).bundle.attachments@.len() {
                    &&& final(self).bundle.attachments == old(self).bundle.attachments
                    &&& final(self).selected_attachment_index is None
                    &&& final(self).notice == old(self).notice
                    &&& final(self).wire_drag_from == old(self).wire_drag_from
                } else {
                    let removed = old(self).bundle.attachments@[i as int];
                    &&& final(self).bundle.attachments@ == old(self).bundle.attachments@.remove(i as int)
                    &&& final(self).selected_attachment_index is None
                    &&& final(self).wire_drag_from is None
                    &&& final(self).notice@ == "Deleted wire "@ + spec_endpoint_display(removed.from)
                        + " -> "@ + spec_endpoint_display(removed.to) + "."@
                },
            },
    {
        let index = match self.selected_attachment_index {
            None => {
                return;
            },
            Some(index) => index,
        };
        if index >= self.bundle.attachments.len() {
            self.selected_attachment_index = None;
            return;
        }
        let attachment = self.bundle.attachments.remove(index);
        self.selected_attachment_index = None;
        self.wire_drag_from = None;
        let mut text = chars_of("Deleted wire ");
        push_str(&mut text, endpoint_display(&attachment.from).as_str());
        push_str(&mut text, " -> ");
        push_str(&mut text, endpoint_display(&attachment.to).as_str());
        push_str(&mut text, ".");
        self.notice = string_of(&text);
    }

    /// Removes the exported pin on `endpoint` if there is one, else exports
    /// that endpoint under a name no export uses yet.
    pub fn toggle_export_for_endpoint(&mut self, endpoint: AttachmentEndpoint)
        requires
            old(self).bundle.exports@.len() + 2 <= u64::MAX,
        ensures
            export_toggled(*old(self), endpoint, *final(self)),
    {
        let ghost exports0 = self.bundle.exports@;
        let mut i: usize = 0;
        while i < self.bundle.exports.len()
            invariant
                exports0 == self.bundle.exports@,
                exports0 == old(self).bundle.exports@,
                *self == *old(self),
                i <= exports0.len(),
                forall|j: int| 0 <= j < i ==> #[trigger] epview(exports0[j].source) != epview(endpoint),
            decreases self.bundle.exports.len() - i,
        {
            if endpoint_eq(&self.bundle.exports[i].source, &endpoint) {
                proof {
                    let k = choose|k: int| 0 <= k < exports0.len() && #[trigger] epview(exports0[k].source)
                        == epview(endpoint) && forall|j: int|
                        0 <= j < k ==> #[trigger] epview(exports0[j].source) != epview(endpoint);
                    assert(epview(exports0[i as int].source) == epview(endpoint));
                    if k < i {
                    } else if k > i {
                    }
                    assert(k == i);
                }
                let removed = self.bundle.exports.remove(i);
                let mut text = chars_of("Removed connectable pin ");
                push_str(&mut text, removed.name.as_str());
                push_str(&mut text, " (");
                push_str(&mut text, endpoint_display(&removed.source).as_str());
                push_str(&mut text, ")");
                self.notice = string_of(&text);
                return;
            }
            i = i + 1;
        }
        let base = default_export_name_for_endpoint(&endpoint);
        let export_name = make_unique_export_name(self.bundle.exports.as_slice(), base.as_str());
        let mut text = chars_of("Added connectable pin ");
        push_str(&mut text, export_name.as_str());
        push_str(&mut text, " (");
        push_str(&mut text, endpoint_display(&endpoint).as_str());
        push_str(&mut text, ")");
        self.bundle.exports.push(
            AssemblyExport {
                name: export_name,
                source: endpoint,
                aliases: Vec::new(),
                note: Some(owned("Selected from wiring canvas")),
            },
        );
        assert(self.bundle.exports@.drop_last() =~= exports0);
        self.notice = string_of(&text);
    }

    /// The member `missing_id` is gone: stop selecting and previewing it and
    /// say so.
    pub fn handle_missing_selected_member(&mut self, missing_id: &str)
        ensures
            final(self).bundle == old(self).bundle,
            old(self).selected_member_id@ == missing_id@ ==> final(self).selected_member_id@
                == PRIMARY_MEMBER_ID@,
            old(self).selected_member_id@ != missing_id@ ==> final(self).selected_member_id
                == old(self).selected_member_id,
            opt_view(old(self).preview_member_id) == Some(missing_id@) ==> final(self).preview_member_id is None,
            opt_view(old(self).preview_member_id) != Some(missing_id@) ==> final(self).preview_member_id
                == old(self).preview_member_id,
            final(self).notice@ == "Selected module "@ + missing_id@ + " is no longer available."@,
    {
        if str_eq(self.selected_member_id.as_str(), missing_id) {
            self.selected_member_id = owned(PRIMARY_MEMBER_ID);
        }
        let previewed = match &self.preview_member_id {
            Some(id) => str_eq(id.as_str(), missing_id),
            None => false,
        };
        if previewed {
            self.preview_member_id = None;
        }
        let mut text = chars_of("Selected module ");
        push_str(&mut text, missing_id);
        push_str(&mut text, " is no longer available.");
        self.notice = string_of(&text);
    }

    /// Removes the selected child with every wire and exported pin on it,
    /// and selects the primary again. The primary itself stays.
    pub fn remove_selected_child(&mut self)
        ensures
            old(self).selected_member_id@ == PRIMARY_MEMBER_ID@ ==> final(self).bundle == old(self).bundle
                && final(self).notice == old(self).notice && final(self).selected_member_id == old(
                self,
            ).selected_member_id,
            old(self).selected_member_id@ != PRIMARY_MEMBER_ID@ ==> {
                let id = old(self).selected_member_id@;
                &&& final(self).bundle.primary == old(self).bundle.primary
                &&& final(self).bundle.children@ == children_without(old(self).bundle.children@, id)
                &&& final(self).bundle.attachments@ == wires_without(old(self).bundle.attachments@, id)
                &&& final(self).bundle.exports@ == exports_without(old(self).bundle.exports@, id)
                &&& crate::text::views(final(self).collapsed_member_ids@) == names_without(
                    crate::text::views(old(self).collapsed_member_ids@),
                    id,
                )
                &&& final(self).selected_member_id@ == PRIMARY_MEMBER_ID@
                &&& final(self).notice@ == "Removed "@ + id + " and its wiring."@
            },
    {
        if str_eq(self.selected_member_id.as_str(), PRIMARY_MEMBER_ID) {
            return;
        }
        let removed_id = self.selected_member_id.clone();
        let id = removed_id.as_str();
        let ghost gid = id@;

        let mut children: Vec<AssemblyMember> = Vec::new();
        std::mem::swap(&mut children, &mut self.bundle.children);
        let ghost c0 = children@;
        let mut kept_children: Vec<AssemblyMember> = Vec::new();
        while children.len() > 0
            invariant
                gid == id@,
                c0.len() >= children@.len(),
                children@ == c0.skip(c0.len() - children@.len()),
                kept_children@ == children_without(c0.take(c0.len() - children@.len()), gid),
            decreases children.len(),
        {
            let ghost k = c0.len() - children@.len();
            assert(c0.take(k + 1).drop_last() =~= c0.take(k));
            assert(c0.take(k + 1).last() == c0[k]);
            assert(children@[0] == c0[k]);
            let child = children.remove(0);
            assert(children@ =~= c0.skip(k + 1));
            if !str_eq(child.id.as_str(), id) {
                kept_children.push(child);
            }
        }
        assert(c0.take(c0.len() as int) =~= c0);
        self.bundle.children = kept_children;

        let mut wires: Vec<AttachmentBinding> = Vec::new();
        std::mem::swap(&mut wires, &mut self.bundle.attachments);
        let ghost a0 = wires@;
        let mut kept_wires: Vec<AttachmentBinding> = Vec::new();
        while wires.len() > 0
            invariant
                gid == id@,
                a0.len() >= wires@.len(),
                wires@ == a0.skip(a0.len() - wires@.len()),
                kept_wires@ == wires_without(a0.take(a0.len() - wires@.len()), gid),
            decreases wires.len(),
        {
            let ghost k = a0.len() - wires@.len();
            assert(a0.take(k + 1).drop_last() =~= a0.take(k));
            assert(a0.take(k + 1).last() == a0[k]);
            assert(wires@[0] == a0[k]);
            let wire = wires.remove(0);
            assert(wires@ =~= a0.skip(k + 1));
            if !endpoint_on_member(&wire.from, id) && !endpoint_on_member(&wire.to, id) {
                kept_wires.push(wire);
            }
        }
        assert(a0.take(a0.len() as int) =~= a0);
        self.bundle.attachments = kept_wires;

        let mut exports: Vec<AssemblyExport> = Vec::new();
        std::mem::swap(&mut exports, &mut self.bundle.exports);
        let ghost e0 = exports@;
        let mut kept_exports: Vec<AssemblyExport> = Vec::new();
        while exports.len() > 0
            invariant
                gid == id@,
                e0.len() >= exports@.len(),
                exports@ == e0.skip(e0.len() - exports@.len()),
                kept_exports@ == exports_without(e0.take(e0.len() - exports@.len()), gid),
            decreases exports.len(),
        {
            let ghost k = e0.len() - exports@.len();
            assert(e0.take(k + 1).drop_last() =~= e0.take(k));
            assert(e0.take(k + 1).last() == e0[k]);
            assert(exports@[0] == e0[k]);
            let export = exports.remove(0);
            assert(exports@ =~= e0.skip(k + 1));
            if !endpoint_on_member(&export.source, id) {
                kept_exports.push(export);
            }
        }
        assert(e0.take(e0.len() as int) =~= e0);
        self.bundle.exports = kept_exports;

        let ghost n0 = crate::text::views(self.collapsed_member_ids@);
        let mut collapsed: Vec<String> = Vec::new();
        let mut j: usize = 0;
        while j < self.collapsed_member_ids.len()
            invariant
                gid == id@,
                n0 == crate::text::views(self.collapsed_member_ids@),
                j <= n0.len(),
                crate::text::views(collapsed@) == names_without(n0.take(j as int), gid),
            decreases self.collapsed_member_ids.len() - j,
        {
            assert(n0.take(j + 1).drop_last() =~= n0.take(j as int));
            assert(n0.take(j + 1).last() == self.collapsed_member_ids@[j as int]@);
            let ghost before = crate::text::views(collapsed@);
            if !str_eq(self.collapsed_member_ids[j].as_str(), id) {
                collapsed.push(self.collapsed_member_ids[j].clone());
                assert(crate::text::views(collapsed@) =~= before.push(self.collapsed_member_ids@[j as int]@));
            }
            j = j + 1;
        }
        assert(n0.take(n0.len() as int) =~= n0);
        self.collapsed_member_ids = collapsed;

        let mut text = chars_of("Removed ");
        push_str(&mut text, id);
        push_str(&mut text, " and its wiring.");
        self.selected_member_id = owned(PRIMARY_MEMBER_ID);
        self.notice = string_of(&text);
    }

    /// Adds a child member of `kind` under the next free id, made from the
    /// default module model among `model_names`, with the ports derived
    /// from that model's net names (`model_net_names`, when the model could
    /// be loaded) and the behavior suggested for it (`behavior_name`), and
    /// selects it.
    pub fn add_child_member(
        &mut self,
        kind: AssemblyMemberKind,
        model_names: &[String],
        model_net_names: Option<&[String]>,
        behavior_name: Option<&str>,
    )
        requires
            old(self).bundle.children@.len() + 2 <= u64::MAX,
        ensures
            final(self).bundle.primary == old(self).bundle.primary,
            final(self).bundle.attachments == old(self).bundle.attachments,
            final(self).bundle.exports == old(self).bundle.exports,
            final(self).bundle.children@.len() == old(self).bundle.children@.len() + 1,
            final(self).bundle.children@.drop_last() == old(self).bundle.children@,
            ({
                let m = final(self).bundle.children@.last();
                &&& first_free_name(m.id@, member_id_prefix(kind), 1, member_ids(old(self).bundle))
                &&& m.kind == kind
                &&& m.name@ == m.id@
                &&& opt_view(m.label) == Some("Module"@)
                &&& m.description is None
                &&& m.source.builtin_name matches Some(n) && n@ == spec_default_module_name(views(model_names@))
                &&& m.source.path is None
                &&& match model_net_names {
                    Some(nets) => ports_derived(m.ports@, views(nets@)),
                    None => m.ports@.len() == 0,
                }
                &&& m.embedded_host_board is None
                &&& m.firmware is None
                &&& match behavior_name {
                    Some(b) => m.behavior matches Some(r) && r.kind == DefinitionReferenceKind::BehaviorDefinition
                        && opt_view(r.builtin_name) == Some(b@) && r.path is None && r.host_board is None,
                    None => m.behavior is None,
                }
                &&& m.note is None
                &&& views(final(self).collapsed_member_ids@) == names_without(
                    views(old(self).collapsed_member_ids@),
                    m.id@,
                )
                &&& final(self).selected_member_id@ == m.id@
                &&& final(self).notice@ == "Added "@ + m.id@ + " to the assembly."@
            }),
    {
        let id = next_member_id(&self.bundle, kind);
        let model = default_builtin_module_name(model_names);
        let source = DefinitionSource::builtin_board_model(model.as_str());
        let mut member = AssemblyMember::new(id.as_str(), kind, id.as_str(), source);
        member.label = Some(owned("Module"));
        member.ports = match model_net_names {
            Some(nets) => derive_ports_from_net_names(nets),
            None => Vec::new(),
        };
        member.behavior = match behavior_name {
            Some(b) => Some(DefinitionReference::builtin(DefinitionReferenceKind::BehaviorDefinition, b)),
            None => None,
        };
        let ghost children0 = self.bundle.children@;
        self.bundle.children.push(member);
        assert(self.bundle.children@.drop_last() =~= children0);
        let ghost n0 = views(self.collapsed_member_ids@);
        let mut collapsed: Vec<String> = Vec::new();
        let mut j: usize = 0;
        while j < self.collapsed_member_ids.len()
            invariant
                n0 == views(self.collapsed_member_ids@),
                j <= n0.len(),
                views(collapsed@) == names_without(n0.take(j as int), id@),
            decreases self.collapsed_member_ids.len() - j,
        {
            assert(n0.take(j + 1).drop_last() =~= n0.take(j as int));
            assert(n0.take(j + 1).last() == self.collapsed_member_ids@[j as int]@);
            let ghost before = views(collapsed@);
            if !str_eq(self.collapsed_member_ids[j].as_str(), id.as_str()) {
                collapsed.push(self.collapsed_member_ids[j].clone());
                assert(views(collapsed@) =~= before.push(self.collapsed_member_ids@[j as int]@));
            }
            j = j + 1;
        }
        assert(n0.take(n0.len() as int) =~= n0);
        self.collapsed_member_ids = collapsed;
        let mut text = chars_of("Added ");
        push_str(&mut text, id.as_str());
        push_str(&mut text, " to the assembly.");
        self.notice = string_of(&text);
        self.selected_member_id = id;
    }

    /// Makes `host_board` the primary controller, with the ports of its
    /// model (`ports`). Returns whether anything changed: nothing does when
    /// the primary already is that board's model.
    pub fn apply_primary_controller(&mut self, host_board: HostBoard, ports: Vec<PortDefinition>) -> (changed:
        bool)
        ensures
            final(self).bundle.children == old(self).bundle.children,
            final(self).bundle.attachments == old(self).bundle.attachments,
            final(self).bundle.exports == old(self).bundle.exports,
            final(self).selected_member_id == old(self).selected_member_id,
            final(self).notice == old(self).notice,
            changed == !(old(self).bundle.primary.embedded_host_board == Some(host_board) && opt_view(
                old(self).bundle.primary.source.builtin_name,
            ) == Some(spec_host_board_model(host_board))),
            !changed ==> final(self).bundle.primary == old(self).bundle.primary,
            changed ==> {
                let p = final(self).bundle.primary;
                let q = old(self).bundle.primary;
                &&& p.embedded_host_board == Some(host_board)
                &&& p.source.builtin_name matches Some(n) && n@ == spec_host_board_model(host_board)
                &&& p.source.path is None
                &&& p.name@ == spec_host_board_short_name(host_board)
                &&& opt_view(p.label) == Some(spec_host_board_label(host_board))
                &&& p.ports == ports
                &&& p.id == q.id && p.kind == q.kind && p.description == q.description
                &&& p.firmware == q.firmware && p.behavior == q.behavior && p.note == q.note
            },
    {
        let model = host_board.builtin_board_model();
        let same_board = match self.bundle.primary.embedded_host_board {
            Some(board) => board == host_board,
            None => false,
        };
        let same_model = match &self.bundle.primary.source.builtin_name {
            Some(name) => str_eq(name.as_str(), model),
            None => false,
        };
        if same_board && same_model {
            return false;
        }
        self.bundle.primary.embedded_host_board = Some(host_board);
        self.bundle.primary.source = DefinitionSource::builtin_board_model(model);
        self.bundle.primary.name = owned(host_board.short_name());
        self.bundle.primary.label = Some(owned(host_board.label()));
        self.bundle.primary.ports = ports;
        true
    }

    /// Wires each port of each child to the primary port that matches it
    /// best, when that match is clear, skipping wires that exist already.
    /// The last new wire is selected. Returns how many wires were added.
    pub fn import_wiring_from_ports(&mut self) -> (added: usize)
        ensures
            wiring_imported(*old(self), *final(self), added as nat),
            final(self).notice == old(self).notice,
    {
        let ghost primary = self.bundle.primary.ports@;
        let ghost children = self.bundle.children@;
        let mut planned: Vec<(AttachmentEndpoint, AttachmentEndpoint)> = Vec::new();
        let mut c: usize = 0;
        while c < self.bundle.children.len()
            invariant
                primary == self.bundle.primary.ports@,
                children == self.bundle.children@,
                c <= children.len(),
                wire_pairs(planned@) == planned_wires(primary, children.take(c as int)),
            decreases self.bundle.children.len() - c,
        {
            assert(children.take(c + 1).drop_last() =~= children.take(c as int));
            assert(children.take(c + 1).last() == children[c as int]);
            let child = &self.bundle.children[c];
            let ghost start = wire_pairs(planned@);
            let mut p: usize = 0;
            while p < child.ports.len()
                invariant
                    primary == self.bundle.primary.ports@,
                    p <= child.ports@.len(),
                    wire_pairs(planned@) == start + planned_for_child(
                        primary,
                        child.id@,
                        child.ports@.take(p as int),
                    ),
                decreases child.ports.len() - p,
            {
                assert(child.ports@.take(p + 1).drop_last() =~= child.ports@.take(p as int));
                assert(child.ports@.take(p + 1).last() == child.ports@[p as int]);
                let port = &child.ports[p];
                let ghost before = wire_pairs(planned@);
                match best_primary_port_match(self.bundle.primary.ports.as_slice(), port) {
                    Some(best) => {
                        proof {
                            let scores = match_scores(primary, *port);
                            let i = choose|i: int| unique_best(scores, i) && *best == primary[i];
                            lemma_unique_best_unique(scores);
                            assert(best_match(primary, *port) == Some(i));
                        }
                        let from = AttachmentEndpoint::primary(best.name.as_str());
                        let to = AttachmentEndpoint::child(child.id.as_str(), port.name.as_str());
                        planned.push((from, to));
                        assert(wire_pairs(planned@) =~= before.push((epview(from), epview(to))));
                    },
                    None => {},
                }
                p = p + 1;
            }
            assert(child.ports@.take(child.ports@.len() as int) =~= child.ports@);
            c = c + 1;
        }
        assert(children.take(children.len() as int) =~= children);
        let ghost pv = wire_pairs(planned@);
        let ghost a0 = aviews(self.bundle.attachments@);
        let mut added: usize = 0;
        let mut k: usize = 0;
        while k < planned.len()
            invariant
                pv == wire_pairs(planned@),
                a0 == aviews(old(self).bundle.attachments@),
                k <= pv.len(),
                wiring_frame(*old(self), *self),
                self.bundle.exports == old(self).bundle.exports,
                self.wire_drag_from == old(self).wire_drag_from,
                self.notice == old(self).notice,
                aviews(self.bundle.attachments@) == a0 + import_views(imported_wires(a0, pv.take(k as int))),
                added == imported_wires(a0, pv.take(k as int)).len(),
                added <= k,
                added > 0 ==> self.selected_attachment_index == Some(
                    (self.bundle.attachments@.len() - 1) as usize,
                ),
                added == 0 ==> self.selected_attachment_index == old(self).selected_attachment_index,
            decreases planned.len() - k,
        {
            assert(pv.take(k + 1).drop_last() =~= pv.take(k as int));
            assert(pv.take(k + 1).last() == (epview(planned@[k as int].0), epview(planned@[k as int].1)));
            let from = &planned[k].0;
            let to = &planned[k].1;
            let ghost done = imported_wires(a0, pv.take(k as int));
            if !self.attachment_exists(from, to) {
                let ghost before = aviews(self.bundle.attachments@);
                self.bundle.attachments.push(
                    AttachmentBinding {
                        from: copy_endpoint(from),
                        to: copy_endpoint(to),
                        mode: BindingMode::Bus,
                        note: Some(owned("Imported from controller/module port matching")),
                    },
                );
                let ghost w = (epview(*from), epview(*to));
                assert(aviews(self.bundle.attachments@) =~= before.push(import_view(w)));
                assert(import_views(done.push(w)) =~= import_views(done).push(import_view(w)));
                added = added + 1;
                self.selected_attachment_index = Some(self.bundle.attachments.len() - 1);
            }
            k = k + 1;
        }
        assert(pv.take(pv.len() as int) =~= pv);
        added
    }

    /// Takes in the outcome of loading the PCB at `path` for member
    /// `member_id`. Loaded, the member (the primary, else the first child so
    /// named) takes the PCB as its source, its ports from the PCB and no
    /// behavior, and a blank name becomes the file's stem. Returns whether
    /// the window keeps the PCB for that member (`None`: an empty path, which
    /// loads nothing).
    pub fn load_member_pcb(&mut self, member_id: &str, path: &str, loaded: Result<LoadedPcb, String>) -> (kept: Option<bool>)
        ensures
            editor_rest_same(*old(self), *final(self)),
            final(self).bundle.name == old(self).bundle.name,
            final(self).bundle.format_version == old(self).bundle.format_version,
            final(self).bundle.description == old(self).bundle.description,
            final(self).bundle.attachments == old(self).bundle.attachments,
            final(self).bundle.exports == old(self).bundle.exports,
            path@.len() == 0 ==> {
                &&& kept is None
                &&& final(self).bundle == old(self).bundle
                &&& final(self).notice@ == "Select a PCB file first."@
            },
            path@.len() > 0 && loaded is Err ==> {
                &&& kept == Some(false)
                &&& final(self).bundle == old(self).bundle
                &&& final(self).notice@ == "PCB load failed: "@ + loaded->Err_0@
            },
            path@.len() > 0 && loaded is Ok ==> {
                let pcb = loaded->Ok_0;
                let c0 = old(self).bundle.children@;
                let c1 = final(self).bundle.children@;
                &&& kept == Some(true)
                &&& final(self).notice@ == "Loaded PCB "@ + path@ + " for "@ + member_id@ + "."@
                &&& old(self).bundle.primary.id@ == member_id@ ==> {
                    &&& pcb_member_loaded(old(self).bundle.primary, final(self).bundle.primary, path@, pcb)
                    &&& final(self).bundle.children == old(self).bundle.children
                }
                &&& old(self).bundle.primary.id@ != member_id@ ==> {
                    &&& final(self).bundle.primary == old(self).bundle.primary
                    &&& c1.len() == c0.len()
                    &&& forall|k: int|
                        0 <= k < c0.len() ==> (#[trigger] first_named(c0, member_id@, k) ==> c1
                            == c0.update(k, c1[k]) && pcb_member_loaded(c0[k], c1[k], path@, pcb))
                    &&& (forall|k: int| 0 <= k < c0.len() ==> #[trigger] c0[k].id@ != member_id@) ==> c1 == c0
                }
            },
    {
        if path.unicode_len() == 0 {
            self.notice = owned("Select a PCB file first.");
            return None;
        }
        match loaded {
            Err(error) => {
                let mut text = chars_of("PCB load failed: ");
                push_str(&mut text, error.as_str());
                self.notice = string_of(&text);
                Some(false)
            },
            Ok(pcb) => {
                let ports = derive_ports_from_loaded_pcb(&pcb);
                if str_eq(self.bundle.primary.id.as_str(), member_id) {
                    take_member_pcb(&mut self.bundle.primary, path, ports, Ghost(pcb));
                } else {
                    match child_position(&self.bundle.children, member_id) {
                        Some(k) => {
                            let mut member = self.bundle.children.remove(k);
                            take_member_pcb(&mut member, path, ports, Ghost(pcb));
                            let ghost c0 = old(self).bundle.children@;
                            self.bundle.children.insert(k, member);
                            assert(self.bundle.children@ =~= c0.update(k as int, self.bundle.children@[k as int]));
                            assert forall|j: int|
                                0 <= j < c0.len() && #[trigger] first_named(c0, member_id@, j) implies j == k by {
                                if j < k {
                                    assert(c0[j].id@ != member_id@);
                                } else if j > k {
                                    assert(c0[k as int].id@ == member_id@);
                                }
                            }
                        },
                        None => {},
                    }
                }
                let mut text = chars_of("Loaded PCB ");
                push_str(&mut text, path);
                push_str(&mut text, " for ");
                push_str(&mut text, member_id);
                push_str(&mut text, ".");
                self.notice = string_of(&text);
                Some(true)
            },
        }
    }

    /// Takes in the outcome of opening the board file at `path`. A valid
    /// bundle replaces the one being edited (the primary selected, nothing
    /// folded, pin exposing off) and the PCB paths of its members come back
    /// with their ids, for the window to load; an invalid one, or a failed
    /// open, only changes the notice.
    pub fn load_bundle_file(&mut self, path: &str, loaded: Result<AssemblyBundle, String>) -> (pcb_paths: Vec<(String, String)>)
        ensures
            final(self).open == old(self).open,
            final(self).wire_drag_from == old(self).wire_drag_from,
            final(self).selected_attachment_index == old(self).selected_attachment_index,
            final(self).preview_member_id == old(self).preview_member_id,
            loaded is Err ==> {
                &&& editor_rest_same(*old(self), *final(self))
                &&& final(self).bundle == old(self).bundle
                &&& final(self).notice@ == "Open failed: "@ + loaded->Err_0@
                &&& pcb_paths@.len() == 0
            },
            loaded is Ok && bundle_check(loaded->Ok_0) is Err ==> {
                let b = loaded->Ok_0;
                &&& editor_rest_same(*old(self), *final(self))
                &&& final(self).bundle == old(self).bundle
                &&& final(self).notice@ == "Board file is invalid: "@ + spec_error_message(bundle_check(b)->Err_0)
                &&& pcb_paths@.len() == 0
            },
            loaded is Ok && bundle_check(loaded->Ok_0) is Ok ==> {
                let b = loaded->Ok_0;
                &&& final(self).bundle == b
                &&& final(self).bundle_path@ == path@
                &&& final(self).selected_member_id@ == b.primary.id@
                &&& final(self).collapsed_member_ids@.len() == 0
                &&& !final(self).expose_pin_mode
                &&& final(self).notice@ == "Loaded board assembly with "@ + spec_decimal(b.children@.len())
                    + " child member(s)."@
                &&& pair_views(pcb_paths@) == member_pcb_paths(b)
            },
    {
        let bundle = match loaded {
            Err(error) => {
                let mut text = chars_of("Open failed: ");
                push_str(&mut text, error.as_str());
                self.notice = string_of(&text);
                return Vec::new();
            },
            Ok(bundle) => bundle,
        };
        match bundle.validate() {
            Err(error) => {
                let mut text = chars_of("Board file is invalid: ");
                let message = error.message();
                push_str(&mut text, message.as_str());
                self.notice = string_of(&text);
                return Vec::new();
            },
            Ok(()) => {},
        }
        let mut pcb_paths: Vec<(String, String)> = Vec::new();
        match &bundle.primary.source.path {
            Some(p) => {
                pcb_paths.push((bundle.primary.id.clone(), p.clone()));
            },
            None => {},
        }
        let ghost first = pair_views(pcb_paths@);
        let mut i: usize = 0;
        while i < bundle.children.len()
            invariant
                i <= bundle.children@.len(),
                pair_views(pcb_paths@) == first + child_pcb_paths(bundle.children@.take(i as int)),
            decreases bundle.children.len() - i,
        {
            let ghost before = pair_views(pcb_paths@);
            assert(bundle.children@.take(i + 1).drop_last() =~= bundle.children@.take(i as int));
            match &bundle.children[i].source.path {
                Some(p) => {
                    pcb_paths.push((bundle.children[i].id.clone(), p.clone()));
                    assert(pair_views(pcb_paths@) =~= before.push(
                        (bundle.children@[i as int].id@, p@),
                    ));
                },
                None => {},
            }
            i = i + 1;
        }
        assert(bundle.children@.take(bundle.children@.len() as int) =~= bundle.children@);
        let mut text = chars_of("Loaded board assembly with ");
        push_all(&mut text, &decimal(bundle.children.len() as u64));
        push_str(&mut text, " child member(s).");
        self.notice = string_of(&text);
        self.selected_member_id = bundle.primary.id.clone();
        self.bundle = bundle;
        self.bundle_path = owned(path);
        self.collapsed_member_ids = Vec::new();
        self.expose_pin_mode = false;
        pcb_paths
    }
}

/// The editor's state apart from the bundle and the notice is as it was.
pub open spec fn editor_rest_same(a: BoardEditorState, b: BoardEditorState) -> bool {
    &&& b.open == a.open
    &&& b.bundle_path == a.bundle_path
    &&& b.selected_member_id == a.selected_member_id
    &&& b.collapsed_member_ids == a.collapsed_member_ids
    &&& b.expose_pin_mode == a.expose_pin_mode
    &&& b.wire_drag_from == a.wire_drag_from
    &&& b.selected_attachment_index == a.selected_attachment_index
    &&& b.preview_member_id == a.preview_member_id
}

/// Everything but the bundle's wires, the notice, the selected wire and
/// the wire being drawn is as it was.
pub open spec fn wiring_frame(a: BoardEditorState, b: BoardEditorState) -> bool {
    &&& b.open == a.open
    &&& b.bundle_path == a.bundle_path
    &&& b.selected_member_id == a.selected_member_id
    &&& b.collapsed_member_ids == a.collapsed_member_ids
    &&& b.expose_pin_mode == a.expose_pin_mode
    &&& b.preview_member_id == a.preview_member_id
    &&& b.bundle.format_version == a.bundle.format_version
    &&& b.bundle.name == a.bundle.name
    &&& b.bundle.description == a.bundle.description
    &&& b.bundle.primary == a.bundle.primary
    &&& b.bundle.children == a.bundle.children
}

/// `s1` is `s0` after wiring `from` to `to`: nothing when the two are the
/// same pin, a notice when the wire exists, else the wire appended, selected
/// and announced. The exported pins stay.
pub open spec fn wire_added(s0: BoardEditorState, from: AttachmentEndpoint, to: AttachmentEndpoint, s1: BoardEditorState) -> bool {
    let a0 = aviews(s0.bundle.attachments@);
    &&& wiring_frame(s0, s1)
    &&& s1.bundle.exports == s0.bundle.exports
    &&& if epview(from) == epview(to) {
        &&& s1.bundle.attachments == s0.bundle.attachments
        &&& s1.notice == s0.notice
        &&& s1.selected_attachment_index == s0.selected_attachment_index
    } else if wired(a0, epview(from), epview(to)) {
        &&& s1.bundle.attachments == s0.bundle.attachments
        &&& s1.notice@ == "That wire already exists."@
        &&& s1.selected_attachment_index == s0.selected_attachment_index
    } else {
        &&& aviews(s1.bundle.attachments@) == a0.push((epview(from), epview(to), BindingMode::Bus, None))
        &&& s1.selected_attachment_index == Some(s0.bundle.attachments@.len() as usize)
        &&& s1.notice@ == "Connected "@ + spec_endpoint_display(from) + " -> "@ + spec_endpoint_display(to)
            + "."@
    }
}

/// `s1` is `s0` after toggling the exported pin on `endpoint`: an export
/// on it is removed, else one is added under a name no export uses yet;
/// either way the notice says which.
pub open spec fn export_toggled(s0: BoardEditorState, endpoint: AttachmentEndpoint, s1: BoardEditorState) -> bool {
    &&& wiring_frame(s0, s1)
    &&& s1.bundle.attachments == s0.bundle.attachments
    &&& s1.selected_attachment_index == s0.selected_attachment_index
    &&& s1.wire_drag_from == s0.wire_drag_from
    &&& match export_position(s0.bundle.exports@, epview(endpoint)) {
        Some(k) => {
            let removed = s0.bundle.exports@[k];
            &&& s1.bundle.exports@ == s0.bundle.exports@.remove(k)
            &&& s1.notice@ == "Removed connectable pin "@ + removed.name@ + " ("@
                + spec_endpoint_display(removed.source) + ")"@
        },
        None => {
            let added = s1.bundle.exports@.last();
            &&& s1.bundle.exports@.len() == s0.bundle.exports@.len() + 1
            &&& s1.bundle.exports@.drop_last() == s0.bundle.exports@
            &&& spec_unique_export_name(
                added.name@,
                s0.bundle.exports@,
                spec_default_export_name(endpoint),
            )
            &&& added.source == endpoint
            &&& added.aliases@.len() == 0
            &&& opt_view(added.note) == Some("Selected from wiring canvas"@)
            &&& s1.notice@ == "Added connectable pin "@ + added.name@ + " ("@
                + spec_endpoint_display(endpoint) + ")"@
        },
    }
}

/// `s1` is `s0` after importing the wires that port matching plans and that
/// do not exist yet (`added` of them): appended in order, the last one
/// selected when there is one. The notice is left to the caller.
pub open spec fn wiring_imported(s0: BoardEditorState, s1: BoardEditorState, added: nat) -> bool {
    let new_wires = imported_wires(
        aviews(s0.bundle.attachments@),
        planned_wires(s0.bundle.primary.ports@, s0.bundle.children@),
    );
    &&& wiring_frame(s0, s1)
    &&& s1.bundle.exports == s0.bundle.exports
    &&& s1.wire_drag_from == s0.wire_drag_from
    &&& aviews(s1.bundle.attachments@) == aviews(s0.bundle.attachments@) + import_views(new_wires)
    &&& added == new_wires.len()
    &&& added > 0 ==> s1.selected_attachment_index == Some((s1.bundle.attachments@.len() - 1) as usize)
    &&& added == 0 ==> s1.selected_attachment_index == s0.selected_attachment_index
}

/// `k` is the first child named `id`.
pub open spec fn first_named(c: Seq<AssemblyMember>, id: Seq<char>, k: int) -> bool {
    &&& c[k].id@ == id
    &&& forall|j: int| 0 <= j < k ==> #[trigger] c[j].id@ != id
}

/// Member `m1` is `m0` with the PCB at `path` loaded: that PCB as its
/// source, its ports derived from it, no behavior, and a blank name
/// replaced by the file's stem (`board` without one).
pub open spec fn pcb_member_loaded(m0: AssemblyMember, m1: AssemblyMember, path: Seq<char>, pcb: LoadedPcb) -> bool {
    &&& m1.id == m0.id
    &&& m1.kind == m0.kind
    &&& m1.label == m0.label
    &&& m1.description == m0.description
    &&& m1.embedded_host_board == m0.embedded_host_board
    &&& m1.firmware == m0.firmware
    &&& m1.note == m0.note
    &&& m1.source.kind == DefinitionSourceKind::KicadPcb
    &&& opt_view(m1.source.path) == Some(path)
    &&& m1.source.builtin_name is None
    &&& m1.name@ == (if spec_is_blank(m0.name@) {
        match spec_file_stem(path) {
            Some(stem) => stem,
            None => "board"@,
        }
    } else {
        m0.name@
    })
    &&& ports_from_pcb(m1.ports@, pcb)
    &&& m1.behavior is None
}

/// The ids and PCB paths of the children that have a path, in order.
pub open spec fn child_pcb_paths(c: Seq<AssemblyMember>) -> Seq<(Seq<char>, Seq<char>)>
    decreases c.len(),
{
    if c.len() == 0 {
        Seq::empty()
    } else {
        let rest = child_pcb_paths(c.drop_last());
        match c.last().source.path {
            Some(p) => rest.push((c.last().id@, p@)),
            None => rest,
        }
    }
}

/// The ids and PCB paths of a bundle's members that have a path: the
/// primary first, then the children in order.
pub open spec fn member_pcb_paths(b: AssemblyBundle) -> Seq<(Seq<char>, Seq<char>)> {
    let head: Seq<(Seq<char>, Seq<char>)> = match b.primary.source.path {
        Some(p) => seq![(b.primary.id@, p@)],
        None => Seq::empty(),
    };
    head + child_pcb_paths(b.children@)
}

/// The position of the first child named `id`.
pub(crate) fn child_position(children: &Vec<AssemblyMember>, id: &str) -> (r: Option<usize>)
    ensures
        match r {
            Some(k) => k < children@.len() && first_named(children@, id@, k as int),
            None => forall|k: int| 0 <= k < children@.len() ==> #[trigger] children@[k].id@ != id@,
        },
{
    let mut i: usize = 0;
    while i < children.len()
        invariant
            i <= children@.len(),
            forall|j: int| 0 <= j < i ==> #[trigger] children@[j].id@ != id@,
        decreases children.len() - i,
    {
        if str_eq(children[i].id.as_str(), id) {
            return Some(i);
        }
        i = i + 1;
    }
    None
}

/// Gives `member` the PCB at `path` with the ports derived from it.
fn take_member_pcb(member: &mut AssemblyMember, path: &str, ports: Vec<PortDefinition>, Ghost(pcb): Ghost<LoadedPcb>)
    requires
        ports_from_pcb(ports@, pcb),
    ensures
        pcb_member_loaded(*old(member), *final(member), path@, pcb),
{
    member.source = DefinitionSource::kicad_pcb(path);
    if is_blank(member.name.as_str()) {
        member.name = match file_name(path) {
            Some(name) => string_of(&stem_of(&name)),
            None => owned("board"),
        };
    }
    member.ports = ports;
    member.behavior = None;
}

/// The note a wire made by port matching carries.
pub open spec fn import_note() -> Seq<char> {
    "Imported from controller/module port matching"@
}

pub open spec fn import_view(w: (EndpointView, EndpointView)) -> AttachmentView {
    (w.0, w.1, BindingMode::Bus, Some(import_note()))
}

pub open spec fn import_views(ws: Seq<(EndpointView, EndpointView)>) -> Seq<AttachmentView> {
    ws.map_values(|w: (EndpointView, EndpointView)| import_view(w))
}

pub open spec fn wire_pairs(v: Seq<(AttachmentEndpoint, AttachmentEndpoint)>) -> Seq<(EndpointView, EndpointView)> {
    v.map_values(|w: (AttachmentEndpoint, AttachmentEndpoint)| (epview(w.0), epview(w.1)))
}

/// The primary port a child port is wired to: the unique best match, if any.
pub open spec fn best_match(primary: Seq<PortDefinition>, port: PortDefinition) -> Option<int> {
    if exists|i: int| unique_best(match_scores(primary, port), i) {
        Some(choose|i: int| unique_best(match_scores(primary, port), i))
    } else {
        None
    }
}

proof fn lemma_unique_best_unique(scores: Seq<int>)
    ensures
        forall|i: int, j: int| unique_best(scores, i) && unique_best(scores, j) ==> i == j,
{
    assert forall|i: int, j: int| unique_best(scores, i) && unique_best(scores, j) implies i == j by {
        if i != j {
            assert(scores[j] < scores[i]);
            assert(scores[i] < scores[j]);
        }
    }
}

/// The wires port matching plans for one child's ports, in order.
pub open spec fn planned_for_child(
    primary: Seq<PortDefinition>,
    child_id: Seq<char>,
    ports: Seq<PortDefinition>,
) -> Seq<(EndpointView, EndpointView)>
    decreases ports.len(),
{
    if ports.len() == 0 {
        Seq::empty()
    } else {
        let rest = planned_for_child(primary, child_id, ports.drop_last());
        match best_match(primary, ports.last()) {
            Some(i) => rest.push(((None, primary[i].name@), (Some(child_id), ports.last().name@))),
            None => rest,
        }
    }
}

/// The wires port matching plans for all children, in order.
pub open spec fn planned_wires(primary: Seq<PortDefinition>, children: Seq<AssemblyMember>) -> Seq<
    (EndpointView, EndpointView),
>
    decreases children.len(),
{
    if children.len() == 0 {
        Seq::empty()
    } else {
        planned_wires(primary, children.drop_last()) + planned_for_child(
            primary,
            children.last().id@,
            children.last().ports@,
        )
    }
}

/// The planned wires not already present when their turn comes, in order.
pub open spec fn imported_wires(existing: Seq<AttachmentView>, planned: Seq<(EndpointView, EndpointView)>) -> Seq<
    (EndpointView, EndpointView),
>
    decreases planned.len(),
{
    if planned.len() == 0 {
        Seq::empty()
    } else {
        let rest = imported_wires(existing, planned.drop_last());
        let w = planned.last();
        if wired(existing + import_views(rest), w.0, w.1) {
            rest
        } else {
            rest.push(w)
        }
    }
}

} // verus!

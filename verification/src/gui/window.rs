//! The main window's state apart from drawing: the project being edited,
//! the loaded PCB, the wiring, the serial input line and the last
//! simulator snapshot; with what loading a PCB or a project, adding a
//! module overlay, switching the target or sending serial input does to it.
//!
//! The window keeps its controller bindings as a map by signal name; here
//! that map is a list sorted by signal name, each signal once.

use vstd::prelude::*;
use crate::gui::app::{
    can_hot_swap_target_without_pcb, classify_source, next_module_overlay_name, overlay_base,
    spec_classify_source, SourceAction,
};
use crate::gui::board_editor::first_free_name;
use crate::gui::pcb_view::LoadedPcb;
use crate::gui::simulation::{SharedSimulationState, SimulationSnapshot, HOST_PIN_ACTIVITY_HOLD_MS};
use crate::gui::wiring::{
    added_bindings, name_set, net_name_set, auto_bind_common_aliases, auto_bind_base, auto_wire_module_overlay, deadline_for,
    mark_views, mviews, reconcile_controller_bindings, rebound_bindings, refreshed_flash,
    spec_module_wirings, spec_reconciled, stale_signals, BindingView, HostSignalActivity,
};
use crate::gui::app::{level_views, spec_signal_levels};
use crate::kicad::opt_view;
use crate::project::autobind::{
    binding_signals, bview, bviews, copy_binding, insert_by_signal, signal_position, sort_by_signal,
};
use crate::project::error::spec_error_message;
use crate::project::shared::{
    overlay_names, spec_host_board_label, HostBoard, ModuleOverlay, ProbeSpec, SignalBinding,
    StimulusSpec,
};
use crate::project::error::{outcome, ProjectErrorView};
use crate::project::simulation_project::{project_check, signal_views, SimulationProject};
use crate::text::{
    chars_of, decimal, owned, push_all, push_str, spec_decimal, spec_trim, str_eq, string_of, trim,
    views,
};

verus! {

/// What the window asks of the simulator after the target board changed.
#[derive(Debug, Clone)]
pub enum SourceReload {
    /// Nothing to do.
    Keep,
    /// Compile the sketch at the path again for the new board.
    Compile(String),
    /// Load the HEX image at the path again for the new board.
    LoadHex(String),
}

/// The main window's state, apart from what only drawing needs.
pub struct AvrSimGuiApp {
    pub selected_board: HostBoard,
    pub project_name: String,
    pub project_path: String,
    pub project_description: String,
    pub source_path: String,
    pub pcb_path: String,
    pub project_notice: String,
    pub loaded_pcb: Option<LoadedPcb>,
    pub bindings: Vec<SignalBinding>,
    pub module_overlays: Vec<ModuleOverlay>,
    pub project_probes: Vec<ProbeSpec>,
    pub project_stimuli: Vec<StimulusSpec>,
    pub wiring_open: bool,
    pub compile_log_open: bool,
    pub controller_pins_open: bool,
    pub serial_console_open: bool,
    pub serial_terminal_baud: u32,
    pub serial_input: String,
    pub serial_append_line_ending: bool,
    pub pending_module_model: String,
    pub last_sequence: u64,
    pub snapshot: SimulationSnapshot,
    pub host_activity: HostSignalActivity,
}

/// The number of module signals wired over all overlays.
pub open spec fn wired_total(overlays: Seq<ModuleOverlay>) -> int
    decreases overlays.len(),
{
    if overlays.len() == 0 {
        0
    } else {
        wired_total(overlays.drop_last()) + overlays.last().bindings@.len()
    }
}

/// The number of signal names over all lists.
pub open spec fn names_total(names: Seq<Vec<String>>) -> int
    decreases names.len(),
{
    if names.len() == 0 {
        0
    } else {
        names_total(names.drop_last()) + names.last()@.len()
    }
}

/// The nets of the loaded PCB, if one is loaded.
pub open spec fn loaded_nets(pcb: Option<LoadedPcb>) -> Option<Seq<Seq<char>>> {
    match pcb {
        Some(l) => Some(views(l.net_names@)),
        None => None,
    }
}

/// Overlay `after` is `before` auto-wired with the signal names `names`
/// against `nets` (none without a PCB).
pub open spec fn overlay_rewired(
    before: ModuleOverlay,
    after: ModuleOverlay,
    names: Seq<Seq<char>>,
    nets: Option<Seq<Seq<char>>>,
) -> bool {
    &&& after.name == before.name
    &&& after.model == before.model
    &&& match nets {
        None => after.bindings@.len() == 0,
        Some(n) => mviews(after.bindings@) == spec_module_wirings(before.model@, before.bindings@, names, n),
    }
}

proof fn lemma_module_wirings_len(
    model: Seq<char>,
    existing: Seq<crate::project::shared::ModuleSignalBinding>,
    signals: Seq<Seq<char>>,
    nets: Seq<Seq<char>>,
)
    ensures
        spec_module_wirings(model, existing, signals, nets).len() <= signals.len(),
    decreases signals.len(),
{
    if signals.len() > 0 {
        lemma_module_wirings_len(model, existing, signals.drop_last(), nets);
    }
}

proof fn lemma_names_total_prefix(names: Seq<Vec<String>>, i: int)
    requires
        0 <= i < names.len(),
    ensures
        names_total(names.take(i + 1)) == names_total(names.take(i)) + names[i]@.len(),
        names_total(names.take(i + 1)) <= names_total(names),
    decreases names.len(),
{
    assert(names.take(i + 1).drop_last() =~= names.take(i));
    if i + 1 < names.len() {
        lemma_names_total_prefix(names.drop_last(), i);
        assert(names.drop_last().take(i + 1) =~= names.take(i + 1));
        assert(names.drop_last().take(i) =~= names.take(i));
    } else {
        assert(names.take(i + 1) =~= names);
    }
}

/// The first position from `k` of a binding of signal `name`; -1 when none.
pub open spec fn index_of_signal(r: Seq<BindingView>, name: Seq<char>, k: int) -> int
    decreases r.len() - k,
{
    if k < 0 || k >= r.len() {
        -1
    } else if r[k].0 == name {
        k
    } else {
        index_of_signal(r, name, k + 1)
    }
}

pub(crate) proof fn lemma_index_of_signal(r: Seq<BindingView>, name: Seq<char>, k: int)
    requires
        0 <= k <= r.len(),
    ensures
        index_of_signal(r, name, k) == -1 || (k <= index_of_signal(r, name, k) < r.len() && r[index_of_signal(
            r,
            name,
            k,
        )].0 == name),
        index_of_signal(r, name, k) == -1 ==> forall|j: int| k <= j < r.len() ==> #[trigger] r[j].0 != name,
    decreases r.len() - k,
{
    if k < r.len() && r[k].0 != name {
        lemma_index_of_signal(r, name, k + 1);
    }
}

/// Binding `x` put into the map `r` by its signal: replacing the binding
/// of that signal, or inserted in signal order.
pub open spec fn put_binding(r: Seq<BindingView>, x: BindingView) -> Seq<BindingView> {
    let k = index_of_signal(r, x.0, 0);
    if k >= 0 {
        r.update(k, x)
    } else {
        r.insert(signal_position(r, x, 0), x)
    }
}

/// The map of a list of bindings by signal: later bindings of a signal
/// replace earlier ones.
pub open spec fn keyed_bindings(list: Seq<BindingView>) -> Seq<BindingView>
    decreases list.len(),
{
    if list.len() == 0 {
        Seq::empty()
    } else {
        put_binding(keyed_bindings(list.drop_last()), list.last())
    }
}

/// Each signal is listed once.
pub open spec fn signals_unique(r: Seq<BindingView>) -> bool {
    forall|i: int, j: int| 0 <= i < j < r.len() ==> #[trigger] r[i].0 != #[trigger] r[j].0
}

pub(crate) proof fn lemma_put_binding_unique(r: Seq<BindingView>, x: BindingView)
    requires
        signals_unique(r),
    ensures
        signals_unique(put_binding(r, x)),
{
    lemma_index_of_signal(r, x.0, 0);
    let k = index_of_signal(r, x.0, 0);
    if k >= 0 {
        let t = r.update(k, x);
        assert forall|i: int, j: int| 0 <= i < j < t.len() implies #[trigger] t[i].0 != #[trigger] t[j].0 by {
            if i == k {
                assert(r[j].0 != r[k].0);
            } else if j == k {
                assert(r[i].0 != r[k].0);
            } else {
                assert(r[i].0 != r[j].0);
            }
        }
    } else {
        crate::project::autobind::lemma_signal_position_bounds(r, x, 0);
        let p = signal_position(r, x, 0);
        let t = r.insert(p, x);
        assert forall|i: int, j: int| 0 <= i < j < t.len() implies #[trigger] t[i].0 != #[trigger] t[j].0 by {
            if j < p {
                assert(t[i] == r[i] && t[j] == r[j]);
                assert(r[i].0 != r[j].0);
            } else if j == p {
                assert(t[i] == r[i]);
            } else if i < p {
                assert(t[i] == r[i] && t[j] == r[j - 1]);
                assert(r[i].0 != r[j - 1].0);
            } else if i == p {
                assert(t[j] == r[j - 1]);
            } else {
                assert(t[i] == r[i - 1] && t[j] == r[j - 1]);
                assert(r[i - 1].0 != r[j - 1].0);
            }
        }
    }
}

/// The window's map of bindings lists each signal once.
pub proof fn law_keyed_bindings_unique(list: Seq<BindingView>)
    ensures
        signals_unique(keyed_bindings(list)),
    decreases list.len(),
{
    if list.len() > 0 {
        law_keyed_bindings_unique(list.drop_last());
        lemma_put_binding_unique(keyed_bindings(list.drop_last()), list.last());
    }
}

pub(crate) fn put_binding_into(map: &mut Vec<SignalBinding>, item: SignalBinding)
    ensures
        bviews(final(map)@) == put_binding(bviews(old(map)@), bview(item)),
{
    let ghost rv = bviews(map@);
    let ghost x = bview(item);
    let mut k: usize = 0;
    while k < map.len()
        invariant
            rv == bviews(map@),
            map@ == old(map)@,
            x == bview(item),
            k <= rv.len(),
            index_of_signal(rv, x.0, 0) == index_of_signal(rv, x.0, k as int),
        decreases map.len() - k,
    {
        if str_eq(map[k].board_signal.as_str(), item.board_signal.as_str()) {
            assert(rv[k as int].0 == x.0);
            assert(index_of_signal(rv, x.0, k as int) == k);
            map.set(k, item);
            assert(bviews(map@) =~= rv.update(k as int, x));
            return;
        }
        k = k + 1;
    }
    insert_by_signal(map, item);
}

/// The notice after loading a PCB and auto-wiring it.
pub open spec fn spec_auto_wired_notice(path: Seq<char>, controller: nat, modules: nat) -> Seq<char> {
    "Loaded PCB "@ + path + " and auto-wired "@ + spec_decimal(controller) + " controller pin(s) plus "@
        + spec_decimal(modules) + " module signal(s)."@
}

/// The notice after loading a PCB that made bindings stale.
pub open spec fn spec_refreshed_notice(path: Seq<char>, rebound: nat, dropped: nat, modules: nat) -> Seq<char> {
    "Loaded PCB "@ + path + " and refreshed "@ + spec_decimal(rebound)
        + " controller binding(s) after dropping "@ + spec_decimal(dropped)
        + " stale net reference(s); rewired "@ + spec_decimal(modules) + " module signal(s)."@
}

/// The notice after loading a PCB that every binding still fits.
pub open spec fn spec_kept_notice(path: Seq<char>, bindings: nat, modules: nat) -> Seq<char> {
    "Loaded PCB "@ + path + " with "@ + spec_decimal(bindings) + " controller binding(s) and rewired "@
        + spec_decimal(modules) + " module signal(s)."@
}

/// The notice after loading a project.
pub open spec fn spec_project_loaded_notice(bindings: nat, probes: nat, stimuli: nat) -> Seq<char> {
    "Loaded project with "@ + spec_decimal(bindings) + " binding(s), "@ + spec_decimal(probes)
        + " probe(s), and "@ + spec_decimal(stimuli) + " stimulus/stimuli."@
}

/// `b` is `a` with at most the given parts changed: the wiring, the loaded
/// PCB, its path and the notice.
pub open spec fn same_project_fields(a: AvrSimGuiApp, b: AvrSimGuiApp) -> bool {
    &&& b.selected_board == a.selected_board
    &&& b.project_name == a.project_name
    &&& b.project_path == a.project_path
    &&& b.project_description == a.project_description
    &&& b.source_path == a.source_path
    &&& b.project_probes == a.project_probes
    &&& b.project_stimuli == a.project_stimuli
    &&& b.serial_input == a.serial_input
    &&& b.snapshot == a.snapshot
    &&& b.last_sequence == a.last_sequence
}

fn decimal_text(n: usize) -> (r: Vec<char>)
    ensures
        r@ == spec_decimal(n as nat),
{
    decimal(n as u64)
}

impl AvrSimGuiApp {
    /// The window as it opens, showing the simulator's first snapshot.
    pub fn new(initial: SharedSimulationState) -> (r: Self)
        ensures
            r.selected_board == HostBoard::Mega2560Rev3,
            r.project_name@ == "Untitled Simulation"@,
            r.project_path@.len() == 0,
            r.project_description@.len() == 0,
            r.source_path@.len() == 0,
            r.pcb_path@.len() == 0,
            r.project_notice@.len() == 0,
            r.loaded_pcb is None,
            r.bindings@.len() == 0,
            r.module_overlays@.len() == 0,
            r.project_probes@.len() == 0,
            r.project_stimuli@.len() == 0,
            !r.wiring_open && !r.compile_log_open && !r.controller_pins_open && !r.serial_console_open,
            r.serial_terminal_baud == 115_200,
            r.serial_input@.len() == 0,
            r.serial_append_line_ending,
            r.pending_module_model@ == "gy_sht31_d"@,
            r.last_sequence == initial.sequence,
            r.snapshot == initial.snapshot,
            r.host_activity.wf(),
            r.host_activity.levels@.len() == 0,
            r.host_activity.flash_until@.len() == 0,
    {
        AvrSimGuiApp {
            selected_board: HostBoard::Mega2560Rev3,
            project_name: owned("Untitled Simulation"),
            project_path: String::new(),
            project_description: String::new(),
            source_path: String::new(),
            pcb_path: String::new(),
            project_notice: String::new(),
            loaded_pcb: None,
            bindings: Vec::new(),
            module_overlays: Vec::new(),
            project_probes: Vec::new(),
            project_stimuli: Vec::new(),
            wiring_open: false,
            compile_log_open: false,
            controller_pins_open: false,
            serial_console_open: false,
            serial_terminal_baud: 115_200,
            serial_input: String::new(),
            serial_append_line_ending: true,
            pending_module_model: owned("gy_sht31_d"),
            last_sequence: initial.sequence,
            snapshot: initial.snapshot,
            host_activity: HostSignalActivity::new(),
        }
    }

    /// Takes in the simulator's latest published state at `now_ms`, when it
    /// is a new one: its levels feed the signal activity and its snapshot
    /// is shown.
    pub fn refresh_snapshot(&mut self, latest: SharedSimulationState, now_ms: u64)
        requires
            old(self).host_activity.wf(),
            now_ms + HOST_PIN_ACTIVITY_HOLD_MS <= u64::MAX,
        ensures
            final(self).host_activity.wf(),
            same_project_fields_but_snapshot(*old(self), *final(self)),
            latest.sequence == old(self).last_sequence ==> final(self).snapshot == old(self).snapshot
                && final(self).host_activity == old(self).host_activity
                && final(self).last_sequence == old(self).last_sequence,
            latest.sequence != old(self).last_sequence ==> {
                &&& final(self).last_sequence == latest.sequence
                &&& final(self).snapshot == latest.snapshot
                &&& level_views(final(self).host_activity.levels@) == spec_signal_levels(
                    latest.snapshot.board,
                    latest.snapshot.host_pin_levels@,
                )
                &&& forall|name: Seq<char>| #[trigger] deadline_for(
                    mark_views(final(self).host_activity.flash_until@),
                    name,
                ) == refreshed_flash(
                    mark_views(old(self).host_activity.flash_until@),
                    level_views(old(self).host_activity.levels@),
                    level_views(final(self).host_activity.levels@),
                    now_ms,
                    name,
                )
            },
    {
        if latest.sequence != self.last_sequence {
            self.last_sequence = latest.sequence;
            self.host_activity.update(&latest.snapshot, now_ms);
            self.snapshot = latest.snapshot;
        }
    }

    /// Adds an overlay of the pending module model, named after it with the
    /// least free number, wired to the loaded PCB with the model's signal
    /// names (`signal_names`).
    pub fn add_pending_module_overlay(&mut self, signal_names: &[String])
        requires
            old(self).module_overlays@.len() + 1 <= u64::MAX,
        ensures
            same_project_fields(*old(self), *final(self)),
            final(self).bindings == old(self).bindings,
            final(self).loaded_pcb == old(self).loaded_pcb,
            final(self).module_overlays@.len() == old(self).module_overlays@.len() + 1,
            final(self).module_overlays@.drop_last() == old(self).module_overlays@,
            ({
                let added = final(self).module_overlays@.last();
                &&& first_free_name(
                    added.name@,
                    overlay_base(old(self).pending_module_model@) + "_"@,
                    1,
                    overlay_names(old(self).module_overlays@),
                )
                &&& added.model == old(self).pending_module_model
                &&& match loaded_nets(old(self).loaded_pcb) {
                    None => added.bindings@.len() == 0,
                    Some(n) => mviews(added.bindings@) == spec_module_wirings(
                        added.model@,
                        Seq::empty(),
                        views(signal_names@),
                        n,
                    ),
                }
                &&& final(self).project_notice@ == "Added module overlay "@ + added.name@
                    + " and wired "@ + spec_decimal(added.bindings@.len()) + " signal(s) to the current PCB."@
            }),
    {
        let model = self.pending_module_model.clone();
        let name = next_module_overlay_name(model.as_str(), self.module_overlays.as_slice());
        let mut module = ModuleOverlay { name: name.clone(), model, bindings: Vec::new() };
        let nets: Option<&[String]> = match &self.loaded_pcb {
            Some(loaded) => Some(loaded.net_names.as_slice()),
            None => None,
        };
        let wired = auto_wire_module_overlay(&mut module, signal_names, nets);
        let mut text = chars_of("Added module overlay ");
        push_str(&mut text, name.as_str());
        push_str(&mut text, " and wired ");
        push_all(&mut text, &decimal_text(wired));
        push_str(&mut text, " signal(s) to the current PCB.");
        let ghost before = self.module_overlays@;
        self.module_overlays.push(module);
        assert(self.module_overlays@.drop_last() =~= before);
        self.project_notice = string_of(&text);
    }

    /// Wires every module overlay again, each with its model's signal names
    /// (`signal_names`, one list per overlay, in order), against the loaded
    /// PCB. Returns how many module signals are wired in all.
    pub fn auto_wire_all_modules(&mut self, signal_names: &[Vec<String>]) -> (total: usize)
        requires
            signal_names@.len() == old(self).module_overlays@.len(),
            names_total(signal_names@) <= usize::MAX,
        ensures
            same_project_fields(*old(self), *final(self)),
            final(self).bindings == old(self).bindings,
            final(self).loaded_pcb == old(self).loaded_pcb,
            final(self).project_notice == old(self).project_notice,
            final(self).module_overlays@.len() == old(self).module_overlays@.len(),
            forall|i: int|
                0 <= i < old(self).module_overlays@.len() ==> overlay_rewired(
                    old(self).module_overlays@[i],
                    #[trigger] final(self).module_overlays@[i],
                    views(signal_names@[i]@),
                    loaded_nets(old(self).loaded_pcb),
                ),
            total == wired_total(final(self).module_overlays@),
    {
        let nets: Option<&[String]> = match &self.loaded_pcb {
            Some(loaded) => Some(loaded.net_names.as_slice()),
            None => None,
        };
        rewire_modules(&mut self.module_overlays, signal_names, nets)
    }

    /// Takes in the outcome of loading the PCB at `path`: with `auto_wire`
    /// the controller is bound afresh, else its bindings are refreshed
    /// against the new nets; either way every module overlay is wired again
    /// (with its model's signal names, `module_signal_names`). A failed load
    /// drops the PCB. An empty path loads nothing.
    pub fn load_pcb_path(
        &mut self,
        path: &str,
        loaded: Result<LoadedPcb, String>,
        auto_wire: bool,
        host_signals: &[String],
        module_signal_names: &[Vec<String>],
    )
        requires
            module_signal_names@.len() == old(self).module_overlays@.len(),
            names_total(module_signal_names@) <= usize::MAX,
        ensures
            same_project_fields(*old(self), *final(self)),
            path@.len() == 0 ==> {
                &&& final(self).project_notice@ == "Select a .kicad_pcb file first."@
                &&& final(self).bindings == old(self).bindings
                &&& final(self).module_overlays == old(self).module_overlays
                &&& final(self).loaded_pcb == old(self).loaded_pcb
                &&& final(self).pcb_path == old(self).pcb_path
            },
            path@.len() > 0 && loaded is Err ==> {
                &&& final(self).loaded_pcb is None
                &&& final(self).project_notice@ == "PCB load failed: "@ + loaded->Err_0@
                &&& final(self).bindings == old(self).bindings
                &&& final(self).module_overlays == old(self).module_overlays
                &&& final(self).pcb_path == old(self).pcb_path
            },
            path@.len() > 0 && loaded is Ok ==> {
                let pcb = loaded->Ok_0;
                let nets = views(pcb.net_names@);
                &&& final(self).pcb_path@ == path@
                &&& final(self).loaded_pcb == Some(pcb)
                &&& final(self).module_overlays@.len() == old(self).module_overlays@.len()
                &&& forall|i: int|
                    0 <= i < old(self).module_overlays@.len() ==> overlay_rewired(
                        old(self).module_overlays@[i],
                        #[trigger] final(self).module_overlays@[i],
                        views(module_signal_names@[i]@),
                        Some(nets),
                    )
            },
            path@.len() > 0 && loaded is Ok && auto_wire ==> {
                let nets = name_set(views(loaded->Ok_0.net_names@));
                let added = added_bindings(Seq::empty(), old(self).selected_board, views(host_signals@), nets);
                let bound = if nets.len() == 0 { 0nat } else { added.len() };
                &&& nets.len() == 0 ==> final(self).bindings@ == old(self).bindings@
                &&& nets.len() > 0 ==> bviews(final(self).bindings@) == sort_by_signal(added)
                &&& final(self).project_notice@ == spec_auto_wired_notice(
                    path@,
                    bound,
                    wired_total(final(self).module_overlays@) as nat,
                )
            },
            path@.len() > 0 && loaded is Ok && !auto_wire ==> {
                let nets = name_set(views(loaded->Ok_0.net_names@));
                let stale = stale_signals(old(self).bindings@, nets);
                let rebound = if nets.len() == 0 {
                    0nat
                } else {
                    rebound_bindings(old(self).selected_board, stale, nets).len()
                };
                let dropped = if nets.len() == 0 { 0nat } else { stale.len() };
                &&& nets.len() == 0 ==> final(self).bindings@ == old(self).bindings@
                &&& nets.len() > 0 ==> bviews(final(self).bindings@) == spec_reconciled(
                    old(self).selected_board,
                    old(self).bindings@,
                    nets,
                )
                &&& final(self).project_notice@ == if rebound > 0 || dropped > 0 {
                    spec_refreshed_notice(
                        path@,
                        rebound,
                        dropped,
                        wired_total(final(self).module_overlays@) as nat,
                    )
                } else {
                    spec_kept_notice(
                        path@,
                        final(self).bindings@.len(),
                        wired_total(final(self).module_overlays@) as nat,
                    )
                }
            },
    {
        if path.unicode_len() == 0 {
            self.project_notice = owned("Select a .kicad_pcb file first.");
            return;
        }
        match loaded {
            Err(error) => {
                self.loaded_pcb = None;
                let mut text = chars_of("PCB load failed: ");
                push_str(&mut text, error.as_str());
                self.project_notice = string_of(&text);
            },
            Ok(pcb) => {
                self.pcb_path = owned(path);
                let board = self.selected_board;
                let net_set = net_name_set(pcb.net_names.as_slice());
                let nets = net_set.as_slice();
                let pcb_nets = pcb.net_names.as_slice();
                if auto_wire {
                    let controller_bound = auto_bind_common_aliases(
                        &mut self.bindings,
                        board,
                        host_signals,
                        nets,
                        true,
                    );
                    let module_bound = rewire_modules(&mut self.module_overlays, module_signal_names, Some(pcb_nets));
                    let mut text = chars_of("Loaded PCB ");
                    push_str(&mut text, path);
                    push_str(&mut text, " and auto-wired ");
                    push_all(&mut text, &decimal_text(controller_bound));
                    push_str(&mut text, " controller pin(s) plus ");
                    push_all(&mut text, &decimal_text(module_bound));
                    push_str(&mut text, " module signal(s).");
                    self.project_notice = string_of(&text);
                    proof {
                        assert(auto_bind_base(old(self).bindings@, true) =~= Seq::<BindingView>::empty());
                        assert(binding_signals(Seq::<BindingView>::empty()) =~= Seq::<Seq<char>>::empty());
                        assert(Seq::<BindingView>::empty() + added_bindings(
                            Seq::empty(),
                            board,
                            views(host_signals@),
                            views(nets@),
                        ) =~= added_bindings(Seq::empty(), board, views(host_signals@), views(nets@)));
                    }

                } else {
                    let (rebound, dropped) = reconcile_controller_bindings(&mut self.bindings, board, nets);
                    let module_bound = rewire_modules(&mut self.module_overlays, module_signal_names, Some(pcb_nets));
                    let mut text = chars_of("Loaded PCB ");
                    push_str(&mut text, path);
                    if rebound > 0 || dropped > 0 {
                        push_str(&mut text, " and refreshed ");
                        push_all(&mut text, &decimal_text(rebound));
                        push_str(&mut text, " controller binding(s) after dropping ");
                        push_all(&mut text, &decimal_text(dropped));
                        push_str(&mut text, " stale net reference(s); rewired ");
                        push_all(&mut text, &decimal_text(module_bound));
                        push_str(&mut text, " module signal(s).");
                    } else {
                        push_str(&mut text, " with ");
                        push_all(&mut text, &decimal_text(self.bindings.len()));
                        push_str(&mut text, " controller binding(s) and rewired ");
                        push_all(&mut text, &decimal_text(module_bound));
                        push_str(&mut text, " module signal(s).");
                    }
                    self.project_notice = string_of(&text);
                }
                assert(views(pcb_nets@) == views(pcb.net_names@));
                self.loaded_pcb = Some(pcb);
            },
        }
    }

    /// Shows the project loaded from `path`: its board, name, description,
    /// source and PCB paths, module overlays, bindings (by signal, a later
    /// binding of a signal replacing an earlier one), probes and stimuli.
    /// The caller then loads the project's PCB when that file exists.
    pub fn apply_project(&mut self, project: SimulationProject, path: &str)
        ensures
            final(self).selected_board == project.host_board,
            final(self).project_name == project.name,
            final(self).project_path@ == path@,
            final(self).project_description@ == match project.description {
                Some(d) => d@,
                None => Seq::<char>::empty(),
            },
            final(self).source_path == project.firmware.path,
            final(self).pcb_path == project.pcb.path,
            final(self).module_overlays == project.module_overlays,
            bviews(final(self).bindings@) == keyed_bindings(bviews(project.bindings@)),
            final(self).project_probes == project.probes,
            final(self).project_stimuli == project.stimuli,
            final(self).project_notice@ == spec_project_loaded_notice(
                final(self).bindings@.len(),
                project.probes@.len(),
                project.stimuli@.len(),
            ),
            final(self).loaded_pcb == old(self).loaded_pcb,
            final(self).snapshot == old(self).snapshot,
            final(self).serial_input == old(self).serial_input,
    {
        let SimulationProject {
            format_version: _,
            name,
            description,
            host_board,
            firmware,
            pcb,
            root_assembly: _,
            module_overlays,
            bindings,
            probes,
            stimuli,
        } = project;
        self.selected_board = host_board;
        self.project_name = name;
        self.project_path = owned(path);
        self.project_description = match description {
            Some(d) => d,
            None => String::new(),
        };
        self.source_path = firmware.path;
        self.pcb_path = pcb.path;
        self.module_overlays = module_overlays;
        let ghost list = bviews(bindings@);
        let mut map: Vec<SignalBinding> = Vec::new();
        let mut i: usize = 0;
        while i < bindings.len()
            invariant
                list == bviews(bindings@),
                i <= list.len(),
                bviews(map@) == keyed_bindings(list.take(i as int)),
            decreases bindings.len() - i,
        {
            assert(list.take(i + 1).drop_last() =~= list.take(i as int));
            assert(list.take(i + 1).last() == bview(bindings@[i as int]));
            put_binding_into(&mut map, copy_binding(&bindings[i]));
            i = i + 1;
        }
        assert(list.take(list.len() as int) =~= list);
        self.bindings = map;
        let mut text = chars_of("Loaded project with ");
        push_all(&mut text, &decimal_text(self.bindings.len()));
        push_str(&mut text, " binding(s), ");
        push_all(&mut text, &decimal_text(probes.len()));
        push_str(&mut text, " probe(s), and ");
        push_all(&mut text, &decimal_text(stimuli.len()));
        push_str(&mut text, " stimulus/stimuli.");
        self.project_probes = probes;
        self.project_stimuli = stimuli;
        self.project_notice = string_of(&text);
    }

    /// Takes in the outcome of reading the project file at `path`: an
    /// unreadable or invalid project (checked against the host board's
    /// signals and the module models) leaves the window as it was and says
    /// why; a valid one is shown. Returns whether it was shown.
    pub fn load_project_file(
        &mut self,
        path: &str,
        loaded: Result<SimulationProject, String>,
        host_signals: Option<&Vec<String>>,
        module_models: &[String],
    ) -> (shown: bool)
        ensures
            loaded is Err ==> !shown && final(self).project_notice@ == "Open failed: "@ + loaded->Err_0@
                && final(self).bindings == old(self).bindings && final(self).module_overlays == old(
                self,
            ).module_overlays && final(self).project_path == old(self).project_path,
            loaded is Ok ==> match project_check(
                loaded->Ok_0,
                signal_views(host_signals),
                views(module_models@),
            ) {
                Err(e) => !shown && final(self).project_notice@ == "Project is invalid: "@
                    + spec_error_message(e) && final(self).bindings == old(self).bindings
                    && final(self).module_overlays == old(self).module_overlays
                    && final(self).project_path == old(self).project_path,
                Ok(()) => shown && final(self).project_path@ == path@ && final(self).selected_board
                    == loaded->Ok_0.host_board && bviews(final(self).bindings@) == keyed_bindings(
                    bviews(loaded->Ok_0.bindings@),
                ) && final(self).module_overlays == loaded->Ok_0.module_overlays,
            },
    {
        match loaded {
            Err(error) => {
                let mut text = chars_of("Open failed: ");
                push_str(&mut text, error.as_str());
                self.project_notice = string_of(&text);
                false
            },
            Ok(project) => {
                match project.validate(host_signals, module_models) {
                    Err(error) => {
                        let mut text = chars_of("Project is invalid: ");
                        push_str(&mut text, error.message().as_str());
                        self.project_notice = string_of(&text);
                        false
                    },
                    Ok(()) => {
                        self.apply_project(project, path);
                        true
                    },
                }
            },
        }
    }

    /// After the target board changed: when no PCB is loaded and firmware
    /// is running from a source that can be built or loaded again, asks to
    /// compile or reload that source for the new board and says so.
    pub fn reload_source_for_selected_board_if_unwired(&mut self, source_is_dir: bool) -> (r: SourceReload)
        ensures
            same_project_fields(*old(self), *final(self)),
            final(self).bindings == old(self).bindings,
            final(self).module_overlays == old(self).module_overlays,
            final(self).loaded_pcb == old(self).loaded_pcb,
            !can_hot_swap(*old(self), source_is_dir) ==> r is Keep && final(self).project_notice == old(
                self,
            ).project_notice,
            can_hot_swap(*old(self), source_is_dir) ==> match spec_classify_source(
                old(self).source_path@,
                source_is_dir,
            ) {
                SourceAction::Compile => (r matches SourceReload::Compile(p) && p@ == spec_trim(
                    old(self).source_path@,
                ) && final(self).project_notice@ == "Switched target to "@ + spec_host_board_label(
                    old(self).selected_board,
                ) + " and recompiling "@ + p@ + "."@),
                SourceAction::LoadHex => (r matches SourceReload::LoadHex(p) && p@ == spec_trim(
                    old(self).source_path@,
                ) && final(self).project_notice@ == "Switched target to "@ + spec_host_board_label(
                    old(self).selected_board,
                ) + " and reloading "@ + p@ + "."@),
                SourceAction::NoAction => r is Keep,
            },
    {
        if !can_hot_swap_target_without_pcb(
            self.loaded_pcb.is_some(),
            self.source_path.as_str(),
            source_is_dir,
            &self.snapshot,
        ) {
            return SourceReload::Keep;
        }
        let path = string_of(&trim(&chars_of(self.source_path.as_str())));
        match classify_source(self.source_path.as_str(), source_is_dir) {
            SourceAction::Compile => {
                let mut text = chars_of("Switched target to ");
                push_str(&mut text, self.selected_board.label());
                push_str(&mut text, " and recompiling ");
                push_str(&mut text, path.as_str());
                push_str(&mut text, ".");
                self.project_notice = string_of(&text);
                SourceReload::Compile(path)
            },
            SourceAction::LoadHex => {
                let mut text = chars_of("Switched target to ");
                push_str(&mut text, self.selected_board.label());
                push_str(&mut text, " and reloading ");
                push_str(&mut text, path.as_str());
                push_str(&mut text, ".");
                self.project_notice = string_of(&text);
                SourceReload::LoadHex(path)
            },
            SourceAction::NoAction => SourceReload::Keep,
        }
    }

    /// Takes the serial input line, when there is one: returns its bytes
    /// (UTF-8), with a newline when line endings are appended, and the
    /// terminal's baud rate to send them at, and clears the line.
    pub fn send_serial_input(&mut self) -> (r: Option<(Vec<u8>, u32)>)
        ensures
            same_project_fields_but_serial(*old(self), *final(self)),
            old(self).serial_input@.len() == 0 ==> r is None && final(self).serial_input
                == old(self).serial_input && final(self).project_notice == old(self).project_notice,
            old(self).serial_input@.len() > 0 ==> (r matches Some((payload, baud)) && baud
                == old(self).serial_terminal_baud && payload@ == (if old(self).serial_append_line_ending {
                vstd::utf8::encode_utf8(old(self).serial_input@).push(10u8)
            } else {
                vstd::utf8::encode_utf8(old(self).serial_input@)
            }) && final(self).serial_input@.len() == 0 && final(self).project_notice@
                == "Sent serial input at "@ + spec_decimal(old(self).serial_terminal_baud as nat)
                + " baud."@),
    {
        if self.serial_input.unicode_len() == 0 {
            return None;
        }
        let mut payload = self.serial_input.as_str().as_bytes_vec();
        if self.serial_append_line_ending {
            payload.push(10u8);
        }
        let baud = self.serial_terminal_baud;
        let mut text = chars_of("Sent serial input at ");
        push_all(&mut text, &decimal(baud as u64));
        push_str(&mut text, " baud.");
        self.project_notice = string_of(&text);
        self.serial_input = String::new();
        Some((payload, baud))
    }
}

/// Whether the target can change without reloading a PCB (see
/// `can_hot_swap_target_without_pcb`).
pub open spec fn can_hot_swap(w: AvrSimGuiApp, source_is_dir: bool) -> bool {
    w.loaded_pcb is None && w.snapshot.firmware_path is Some && spec_classify_source(
        w.source_path@,
        source_is_dir,
    ) != SourceAction::NoAction
}

/// `b` is `a` with at most its serial input line and notice changed.
pub open spec fn same_project_fields_but_serial(a: AvrSimGuiApp, b: AvrSimGuiApp) -> bool {
    &&& b.selected_board == a.selected_board
    &&& b.project_name == a.project_name
    &&& b.project_path == a.project_path
    &&& b.source_path == a.source_path
    &&& b.pcb_path == a.pcb_path
    &&& b.loaded_pcb == a.loaded_pcb
    &&& b.bindings == a.bindings
    &&& b.module_overlays == a.module_overlays
    &&& b.serial_terminal_baud == a.serial_terminal_baud
    &&& b.snapshot == a.snapshot
}


/// `b` is `a` with at most its snapshot, sequence and signal activity
/// changed.
pub open spec fn same_project_fields_but_snapshot(a: AvrSimGuiApp, b: AvrSimGuiApp) -> bool {
    &&& b.selected_board == a.selected_board
    &&& b.project_name == a.project_name
    &&& b.project_path == a.project_path
    &&& b.project_description == a.project_description
    &&& b.source_path == a.source_path
    &&& b.pcb_path == a.pcb_path
    &&& b.project_notice == a.project_notice
    &&& b.loaded_pcb == a.loaded_pcb
    &&& b.bindings == a.bindings
    &&& b.module_overlays == a.module_overlays
    &&& b.project_probes == a.project_probes
    &&& b.project_stimuli == a.project_stimuli
    &&& b.serial_input == a.serial_input
}

/// Wires every overlay again, each with its model's signal names (one list
/// per overlay, in order), against `nets` (none without a PCB). Returns how
/// many module signals are wired in all.
fn rewire_modules(
    overlays: &mut Vec<ModuleOverlay>,
    signal_names: &[Vec<String>],
    nets: Option<&[String]>,
) -> (total: usize)
    requires
        signal_names@.len() == old(overlays)@.len(),
        names_total(signal_names@) <= usize::MAX,
    ensures
        final(overlays)@.len() == old(overlays)@.len(),
        forall|i: int|
            0 <= i < old(overlays)@.len() ==> overlay_rewired(
                old(overlays)@[i],
                #[trigger] final(overlays)@[i],
                views(signal_names@[i]@),
                match nets {
                    Some(n) => Some(views(n@)),
                    None => None,
                },
            ),
        total == wired_total(final(overlays)@),
{
    let ghost start = overlays@;
    let ghost nets_view = match nets {
        Some(n) => Some(views(n@)),
        None => None,
    };
    let mut total: usize = 0;
    let mut i: usize = 0;
    while i < overlays.len()
        invariant
            start == old(overlays)@,
            signal_names@.len() == start.len(),
            names_total(signal_names@) <= usize::MAX,
            nets_view == match nets {
                Some(n) => Some(views(n@)),
                None => None,
            },
            overlays@.len() == start.len(),
            i <= start.len(),
            forall|j: int|
                0 <= j < i ==> overlay_rewired(
                    start[j],
                    #[trigger] overlays@[j],
                    views(signal_names@[j]@),
                    nets_view,
                ),
            forall|j: int| i <= j < start.len() ==> overlays@[j] == start[j],
            total == wired_total(overlays@.take(i as int)),
            total <= names_total(signal_names@.take(i as int)),
        decreases start.len() - i,
    {
        let ghost before = overlays@;
        let wired = auto_wire_module_overlay(&mut overlays[i], &signal_names[i], nets);
        proof {
            lemma_names_total_prefix(signal_names@, i as int);
            if let Some(n) = nets_view {
                lemma_module_wirings_len(
                    start[i as int].model@,
                    start[i as int].bindings@,
                    views(signal_names@[i as int]@),
                    n,
                );
            }
            assert(overlays@.take(i + 1).drop_last() =~= before.take(i as int));
        }
        total = total + wired;
        i = i + 1;
    }
    assert(overlays@.take(start.len() as int) =~= overlays@);
    total
}

} // verus!

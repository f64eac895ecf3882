//! What the PCB view knows of a loaded board: its components and pads by
//! net, which KiCad layers the simplified preview keeps, and what a net's
//! tooltip says.

use vstd::prelude::*;
use crate::gui::wiring::{insert_name, name_set};
use crate::project::shared::{ModuleOverlay, ModuleSignalBinding, SignalBinding};
use crate::text::{concat3, contains_str, str_eq, views};

verus! {

/// Copper layers drawn as tracks in the preview.
pub fn preview_track_layer(layer: &str) -> (r: bool)
    ensures
        r == (layer@ == "F.Cu"@ || layer@ == "B.Cu"@),
{
    crate::text::str_eq(layer, "F.Cu") || crate::text::str_eq(layer, "B.Cu")
}

/// Silkscreen and outline layers drawn as graphics in the preview.
pub fn preview_graphics_layer(layer: &str) -> (r: bool)
    ensures
        r == (layer@ == "F.SilkS"@ || layer@ == "B.SilkS"@ || layer@ == "Edge.Cuts"@),
{
    crate::text::str_eq(layer, "F.SilkS") || crate::text::str_eq(layer, "B.SilkS")
        || crate::text::str_eq(layer, "Edge.Cuts")
}

// ---------------------------------------------------------------------------
// A loaded board, by nets
// ---------------------------------------------------------------------------

/// A pad of a component: its number and the net it sits on.
#[derive(Debug, Clone)]
pub struct PcbPad {
    pub number: String,
    pub net_name: Option<String>,
}

/// A component of the board: its reference, its kind (`connector` for
/// headers and sockets) and its pads.
#[derive(Debug, Clone)]
pub struct PcbComponent {
    pub reference: String,
    pub kind: String,
    pub pads: Vec<PcbPad>,
}

/// A PCB as the editor and the tooltips read it: its components, its net
/// names, and the net of each track, footprint pad and via of its layout.
#[derive(Debug, Clone)]
pub struct LoadedPcb {
    pub components: Vec<PcbComponent>,
    pub net_names: Vec<String>,
    pub track_nets: Vec<Option<String>>,
    pub pad_nets: Vec<Option<String>>,
    pub via_nets: Vec<Option<String>>,
}

/// How many tracks, pads and vias a net has.
#[derive(Debug, Clone, Copy, PartialEq, Eq, Structural)]
pub struct NetElementCounts {
    pub tracks: usize,
    pub pads: usize,
    pub vias: usize,
}

/// What the tooltip of a net shows.
#[derive(Debug, Clone, PartialEq, Eq)]
pub struct NetTooltipSummary {
    pub net_name: String,
    pub counts: NetElementCounts,
    pub controller_signals: Vec<String>,
    pub module_signals: Vec<String>,
    pub is_active: bool,
    pub is_controller_bound: bool,
    pub is_module_connected: bool,
}

/// How many of the entries sit on `net`.
pub open spec fn on_net_count(nets: Seq<Option<String>>, net: Seq<char>) -> nat
    decreases nets.len(),
{
    if nets.len() == 0 {
        0
    } else {
        on_net_count(nets.drop_last(), net) + if nets.last() matches Some(n) && n@ == net {
            1nat
        } else {
            0nat
        }
    }
}

fn count_on_net(nets: &Vec<Option<String>>, net: &str) -> (r: usize)
    ensures
        r == on_net_count(nets@, net@),
{
    let mut count: usize = 0;
    let mut i: usize = 0;
    while i < nets.len()
        invariant
            i <= nets@.len(),
            count == on_net_count(nets@.take(i as int), net@),
            count <= i,
        decreases nets.len() - i,
    {
        assert(nets@.take(i + 1).drop_last() =~= nets@.take(i as int));
        assert(nets@.take(i + 1).last() == nets@[i as int]);
        let hit = match &nets[i] {
            Some(n) => str_eq(n.as_str(), net),
            None => false,
        };
        if hit {
            count = count + 1;
        }
        i = i + 1;
    }
    assert(nets@.take(nets@.len() as int) =~= nets@);
    count
}

/// The controller signals bound to `net`, in order.
pub open spec fn signals_on_net(bindings: Seq<SignalBinding>, net: Seq<char>) -> Seq<Seq<char>>
    decreases bindings.len(),
{
    if bindings.len() == 0 {
        Seq::empty()
    } else {
        let rest = signals_on_net(bindings.drop_last(), net);
        if bindings.last().pcb_net@ == net {
            rest.push(bindings.last().board_signal@)
        } else {
            rest
        }
    }
}

/// The module signals wired to `net` as `module:signal`, in order.
pub open spec fn module_signals_on_net(overlays: Seq<ModuleOverlay>, net: Seq<char>) -> Seq<Seq<char>>
    decreases overlays.len(),
{
    if overlays.len() == 0 {
        Seq::empty()
    } else {
        module_signals_on_net(overlays.drop_last(), net) + overlay_signals_on_net(
            overlays.last().name@,
            overlays.last().bindings@,
            net,
        )
    }
}

pub open spec fn overlay_signals_on_net(name: Seq<char>, bindings: Seq<ModuleSignalBinding>, net: Seq<char>) -> Seq<
    Seq<char>,
>
    decreases bindings.len(),
{
    if bindings.len() == 0 {
        Seq::empty()
    } else {
        let rest = overlay_signals_on_net(name, bindings.drop_last(), net);
        if bindings.last().pcb_net@ == net {
            rest.push(name + ":"@ + bindings.last().module_signal@)
        } else {
            rest
        }
    }
}

/// The tooltip of `net_name`: how many tracks, pads and vias it has, the
/// controller and module signals bound to it (each a sorted set), and
/// whether it is active (among `active_nets`), bound to the controller and
/// connected to a module.
pub fn net_tooltip_summary(
    loaded: &LoadedPcb,
    net_name: &str,
    bindings: &[SignalBinding],
    module_overlays: &[ModuleOverlay],
    active_nets: &[String],
) -> (r: NetTooltipSummary)
    ensures
        r.net_name@ == net_name@,
        r.counts.tracks == on_net_count(loaded.track_nets@, net_name@),
        r.counts.pads == on_net_count(loaded.pad_nets@, net_name@),
        r.counts.vias == on_net_count(loaded.via_nets@, net_name@),
        views(r.controller_signals@) == name_set(signals_on_net(bindings@, net_name@)),
        views(r.module_signals@) == name_set(module_signals_on_net(module_overlays@, net_name@)),
        r.is_active == views(active_nets@).contains(net_name@),
        r.is_controller_bound == (r.controller_signals@.len() > 0),
        r.is_module_connected == (r.module_signals@.len() > 0),
{
    let counts = NetElementCounts {
        tracks: count_on_net(&loaded.track_nets, net_name),
        pads: count_on_net(&loaded.pad_nets, net_name),
        vias: count_on_net(&loaded.via_nets, net_name),
    };
    let mut controller_signals: Vec<String> = Vec::new();
    let mut i: usize = 0;
    while i < bindings.len()
        invariant
            i <= bindings@.len(),
            views(controller_signals@) == name_set(signals_on_net(bindings@.take(i as int), net_name@)),
        decreases bindings.len() - i,
    {
        assert(bindings@.take(i + 1).drop_last() =~= bindings@.take(i as int));
        assert(bindings@.take(i + 1).last() == bindings@[i as int]);
        if str_eq(bindings[i].pcb_net.as_str(), net_name) {
            let ghost prefix = signals_on_net(bindings@.take(i as int), net_name@);
            insert_name(&mut controller_signals, bindings[i].board_signal.as_str());
            assert(prefix.push(bindings@[i as int].board_signal@).drop_last() =~= prefix);
        }
        i = i + 1;
    }
    assert(bindings@.take(bindings@.len() as int) =~= bindings@);
    let mut module_signals: Vec<String> = Vec::new();
    let mut m: usize = 0;
    while m < module_overlays.len()
        invariant
            m <= module_overlays@.len(),
            views(module_signals@) == name_set(
                module_signals_on_net(module_overlays@.take(m as int), net_name@),
            ),
        decreases module_overlays.len() - m,
    {
        assert(module_overlays@.take(m + 1).drop_last() =~= module_overlays@.take(m as int));
        let overlay = &module_overlays[m];
        let ghost prefix = module_signals_on_net(module_overlays@.take(m as int), net_name@);
        let mut j: usize = 0;
        while j < overlay.bindings.len()
            invariant
                j <= overlay.bindings@.len(),
                views(module_signals@) == name_set(
                    prefix + overlay_signals_on_net(overlay.name@, overlay.bindings@.take(j as int), net_name@),
                ),
            decreases overlay.bindings.len() - j,
        {
            let ghost bs = overlay.bindings@;
            assert(bs.take(j + 1).drop_last() =~= bs.take(j as int));
            assert(bs.take(j + 1).last() == bs[j as int]);
            let binding = &overlay.bindings[j];
            if str_eq(binding.pcb_net.as_str(), net_name) {
                let label = concat3(overlay.name.as_str(), ":", binding.module_signal.as_str());
                let ghost inner = overlay_signals_on_net(overlay.name@, bs.take(j as int), net_name@);
                insert_name(&mut module_signals, label.as_str());
                assert((prefix + inner.push(label@)).drop_last() =~= prefix + inner);
                assert((prefix + inner.push(label@)).last() == label@);
            }
            j = j + 1;
        }
        assert(overlay.bindings@.take(overlay.bindings@.len() as int) =~= overlay.bindings@);
        assert(module_overlays@.take(m + 1).last() == module_overlays@[m as int]);
        m = m + 1;
    }
    assert(module_overlays@.take(module_overlays@.len() as int) =~= module_overlays@);
    let is_active = contains_str(active_nets, net_name);
    let is_controller_bound = controller_signals.len() > 0;
    let is_module_connected = module_signals.len() > 0;
    NetTooltipSummary {
        net_name: crate::text::owned(net_name),
        counts,
        controller_signals,
        module_signals,
        is_active,
        is_controller_bound,
        is_module_connected,
    }
}

} // verus!

//! Wiring of the main window: the host-board bindings kept by signal name,
//! refreshed against the nets of the loaded PCB, and the bindings of module
//! overlays.
//!
//! The window keeps its bindings as a map from signal name to binding; here
//! that map is a list sorted by signal name, each signal listed once.

use vstd::prelude::*;
use crate::project::autobind::{
    bview, bviews, binding_signals, controller_signal_suggestions, copy_binding, infer_binding_mode,
    insert_by_signal, lemma_sort_by_signal, law_suggested_nets_available, should_auto_apply_suggestion,
    sort_by_signal, sorted_by_signal, spec_auto_binding, spec_candidate_pcb_nets, spec_confidence_label,
    spec_infer_binding_mode, spec_should_auto_apply, spec_suggest_pcb_nets, sview, sviews,
};
use crate::gui::app::{
    host_signal_levels_for_snapshot, level_views, module_signal_suggestions, preview_net_aliases,
    spec_module_signal_aliases, spec_preview_net_aliases, spec_signal_levels,
};
use crate::gui::window::{
    index_of_signal, lemma_index_of_signal, lemma_put_binding_unique, put_binding, put_binding_into,
    signals_unique,
};
use crate::gui::app::{classify_source, spec_classify_source, SourceAction};
use crate::gui::simulation::{SimulationSnapshot, HOST_PIN_ACTIVITY_HOLD_MS};
use crate::kicad::opt_view;
use crate::project::autobind::{default_project_name, spec_default_project_name};
use crate::project::error::{spec_error_message, ProjectErrorView};
use crate::project::paths::{file_name, spec_file_stem, stem_of};
use crate::project::simulation_project::{project_check, signal_views, SimulationProject};
use crate::project::shared::{
    FirmwareSource, FirmwareSourceKind, PcbSource, ProbeSpec, StimulusSpec, PROJECT_FORMAT_VERSION,
};
use crate::project::autobind::NetSuggestion;
use crate::project::shared::{
    spec_host_board_label, BindingMode, HostBoard, ModuleOverlay, ModuleSignalBinding, SignalBinding,
};
use crate::text::{
    strictly_sorted, chars_lt, chars_of, contains_str, decimal, lemma_chars_lt_irreflexive, lemma_chars_lt_total,
    lemma_chars_lt_transitive, lemma_chars_lt_asymmetric,
    owned, push_all, push_str, spec_decimal, str_eq, str_less, string_of, views, spec_trim, trim,
};

verus! {

/// A binding as plain values: signal, net, mode and note.
pub type BindingView = (Seq<char>, Seq<char>, BindingMode, Option<Seq<char>>);

// ---------------------------------------------------------------------------
// Refreshing controller bindings against the PCB's nets
// ---------------------------------------------------------------------------

/// The bindings whose net the PCB still has, in order.
pub open spec fn fresh_bindings(bindings: Seq<SignalBinding>, nets: Seq<Seq<char>>) -> Seq<BindingView>
    decreases bindings.len(),
{
    if bindings.len() == 0 {
        Seq::empty()
    } else {
        let rest = fresh_bindings(bindings.drop_last(), nets);
        if nets.contains(bindings.last().pcb_net@) {
            rest.push(bview(bindings.last()))
        } else {
            rest
        }
    }
}

/// The signals whose bound net the PCB no longer has, in order.
pub open spec fn stale_signals(bindings: Seq<SignalBinding>, nets: Seq<Seq<char>>) -> Seq<Seq<char>>
    decreases bindings.len(),
{
    if bindings.len() == 0 {
        Seq::empty()
    } else {
        let rest = stale_signals(bindings.drop_last(), nets);
        if nets.contains(bindings.last().pcb_net@) {
            rest
        } else {
            rest.push(bindings.last().board_signal@)
        }
    }
}

/// The binding a stale signal gets again: its best net, when clear enough,
/// with a note saying so.
pub open spec fn spec_rebinding(board: HostBoard, signal: Seq<char>, nets: Seq<Seq<char>>) -> Option<
    BindingView,
> {
    let sug = spec_suggest_pcb_nets(signal, spec_candidate_pcb_nets(board, signal), nets);
    if spec_should_auto_apply(sug) {
        let best = sug[0];
        Some(
            (
                signal,
                best.0,
                spec_infer_binding_mode(signal),
                Some(
                    "Rebound by arduino_simulator after PCB net refresh ("@ + spec_confidence_label(
                        best.1,
                    ) + ", "@ + best.2 + ")"@,
                ),
            ),
        )
    } else {
        None
    }
}

/// The new bindings of the stale signals that can be bound again, in order.
pub open spec fn rebound_bindings(board: HostBoard, stale: Seq<Seq<char>>, nets: Seq<Seq<char>>) -> Seq<
    BindingView,
>
    decreases stale.len(),
{
    if stale.len() == 0 {
        Seq::empty()
    } else {
        let rest = rebound_bindings(board, stale.drop_last(), nets);
        match spec_rebinding(board, stale.last(), nets) {
            Some(b) => rest.push(b),
            None => rest,
        }
    }
}

/// The bindings after a refresh: the fresh ones and the rebound ones, by
/// signal name.
pub open spec fn spec_reconciled(board: HostBoard, bindings: Seq<SignalBinding>, nets: Seq<Seq<char>>) -> Seq<
    BindingView,
> {
    sort_by_signal(
        fresh_bindings(bindings, nets) + rebound_bindings(board, stale_signals(bindings, nets), nets),
    )
}

/// Drops the bindings whose net the loaded PCB (`available_nets`) no longer
/// has and binds those signals again where the best net is a clear match.
/// Returns how many were bound again and how many were dropped. With no
/// nets, nothing changes.
pub fn reconcile_controller_bindings(
    bindings: &mut Vec<SignalBinding>,
    board: HostBoard,
    available_nets: &[String],
) -> (r: (usize, usize))
    requires
        strictly_sorted(views(available_nets@)),
    ensures
        available_nets@.len() == 0 ==> r == (0usize, 0usize) && final(bindings)@ == old(bindings)@,
        available_nets@.len() > 0 ==> {
            &&& bviews(final(bindings)@) == spec_reconciled(board, old(bindings)@, views(available_nets@))
            &&& r.0 == rebound_bindings(
                board,
                stale_signals(old(bindings)@, views(available_nets@)),
                views(available_nets@),
            ).len()
            &&& r.1 == stale_signals(old(bindings)@, views(available_nets@)).len()
        },
{
    if available_nets.len() == 0 {
        return (0, 0);
    }
    let ghost nv = views(available_nets@);
    let ghost old_b = bindings@;
    let mut fresh: Vec<SignalBinding> = Vec::new();
    let mut stale: Vec<String> = Vec::new();
    let mut i: usize = 0;
    while i < bindings.len()
        invariant
            nv == views(available_nets@),
            old_b == bindings@,
            i <= bindings@.len(),
            bviews(fresh@) == fresh_bindings(old_b.take(i as int), nv),
            views(stale@) == stale_signals(old_b.take(i as int), nv),
        decreases bindings.len() - i,
    {
        assert(old_b.take(i + 1).drop_last() =~= old_b.take(i as int));
        assert(old_b.take(i + 1).last() == old_b[i as int]);
        let ghost f0 = bviews(fresh@);
        let ghost s0 = views(stale@);
        let b = &bindings[i];
        if contains_str(available_nets, b.pcb_net.as_str()) {
            fresh.push(copy_binding(b));
            assert(bviews(fresh@) =~= f0.push(bview(old_b[i as int])));
        } else {
            stale.push(b.board_signal.clone());
            assert(views(stale@) =~= s0.push(old_b[i as int].board_signal@));
        }
        i = i + 1;
    }
    assert(old_b.take(old_b.len() as int) =~= old_b);
    let ghost sv = views(stale@);
    let mut rebound: Vec<SignalBinding> = Vec::new();
    let mut j: usize = 0;
    while j < stale.len()
        invariant
            nv == views(available_nets@),
            strictly_sorted(nv),
            sv == views(stale@),
            j <= stale@.len(),
            bviews(rebound@) == rebound_bindings(board, sv.take(j as int), nv),
        decreases stale.len() - j,
    {
        assert(sv.take(j + 1).drop_last() =~= sv.take(j as int));
        assert(sv.take(j + 1).last() == stale@[j as int]@);
        let signal = stale[j].as_str();
        let suggestions = controller_signal_suggestions(board, signal, available_nets);
        let ghost before = bviews(rebound@);
        if should_auto_apply_suggestion(suggestions.as_slice()) {
            let best = &suggestions[0];
            let mut note = owned("Rebound by arduino_simulator after PCB net refresh (");
            note.append(best.confidence_label());
            note.append(", ");
            note.append(best.reason);
            note.append(")");
            rebound.push(
                SignalBinding {
                    board_signal: owned(signal),
                    pcb_net: best.net_name.clone(),
                    mode: infer_binding_mode(signal),
                    note: Some(note),
                },
            );
            assert(sviews(suggestions@)[0] == sview(suggestions@[0]));
            assert(bviews(rebound@) =~= before.push(spec_rebinding(board, stale@[j as int]@, nv).unwrap()));
        }
        j = j + 1;
    }
    assert(sv.take(sv.len() as int) =~= sv);
    let dropped = stale.len();
    let count = rebound.len();
    let ghost fv = bviews(fresh@);
    let ghost rv = bviews(rebound@);
    let mut sorted: Vec<SignalBinding> = Vec::new();
    let mut k: usize = 0;
    while k < fresh.len()
        invariant
            fv == bviews(fresh@),
            k <= fv.len(),
            bviews(sorted@) == sort_by_signal(fv.take(k as int)),
        decreases fresh.len() - k,
    {
        assert(fv.take(k + 1).drop_last() =~= fv.take(k as int));
        assert(fv.take(k + 1).last() == bview(fresh@[k as int]));
        insert_by_signal(&mut sorted, copy_binding(&fresh[k]));
        k = k + 1;
    }
    assert(fv.take(fv.len() as int) =~= fv);
    let mut m: usize = 0;
    while m < rebound.len()
        invariant
            fv == bviews(fresh@),
            rv == bviews(rebound@),
            m <= rv.len(),
            bviews(sorted@) == sort_by_signal(fv + rv.take(m as int)),
        decreases rebound.len() - m,
    {
        assert((fv + rv.take(m + 1)).drop_last() =~= fv + rv.take(m as int));
        assert((fv + rv.take(m + 1)).last() == bview(rebound@[m as int]));
        insert_by_signal(&mut sorted, copy_binding(&rebound[m]));
        m = m + 1;
    }
    assert(rv.take(rv.len() as int) =~= rv);
    *bindings = sorted;
    (count, dropped)
}

/// After a refresh the bindings stay sorted by signal name, and each points
/// at a net the PCB has.
pub proof fn law_reconciled_bindings_use_pcb_nets(
    board: HostBoard,
    bindings: Seq<SignalBinding>,
    nets: Seq<Seq<char>>,
)
    ensures
        sorted_by_signal(spec_reconciled(board, bindings, nets)),
        forall|k: int|
            0 <= k < spec_reconciled(board, bindings, nets).len() ==> nets.contains(
                #[trigger] spec_reconciled(board, bindings, nets)[k].1,
            ),
{
    broadcast use vstd::seq_lib::to_multiset_contains;

    let fresh = fresh_bindings(bindings, nets);
    let stale = stale_signals(bindings, nets);
    let rebound = rebound_bindings(board, stale, nets);
    let all = fresh + rebound;
    lemma_fresh_bindings_available(bindings, nets);
    lemma_rebound_bindings_available(board, stale, nets);
    lemma_sort_by_signal(all);
    let r = spec_reconciled(board, bindings, nets);
    assert forall|k: int| 0 <= k < r.len() implies nets.contains(#[trigger] r[k].1) by {
        assert(r.contains(r[k]));
        assert(r.to_multiset().count(r[k]) > 0);
        assert(all.contains(r[k]));
        let j = choose|j: int| 0 <= j < all.len() && all[j] == r[k];
        if j < fresh.len() {
            assert(all[j] == fresh[j]);
        } else {
            assert(all[j] == rebound[j - fresh.len()]);
        }
    }
}

proof fn lemma_fresh_bindings_available(bindings: Seq<SignalBinding>, nets: Seq<Seq<char>>)
    ensures
        forall|k: int|
            0 <= k < fresh_bindings(bindings, nets).len() ==> nets.contains(
                #[trigger] fresh_bindings(bindings, nets)[k].1,
            ),
    decreases bindings.len(),
{
    if bindings.len() > 0 {
        lemma_fresh_bindings_available(bindings.drop_last(), nets);
        let rest = fresh_bindings(bindings.drop_last(), nets);
        if nets.contains(bindings.last().pcb_net@) {
            assert(rest.push(bview(bindings.last()))[rest.len() as int].1 == bindings.last().pcb_net@);
        }
    }
}

proof fn lemma_rebound_bindings_available(board: HostBoard, stale: Seq<Seq<char>>, nets: Seq<Seq<char>>)
    ensures
        forall|k: int|
            0 <= k < rebound_bindings(board, stale, nets).len() ==> nets.contains(
                #[trigger] rebound_bindings(board, stale, nets)[k].1,
            ),
    decreases stale.len(),
{
    if stale.len() > 0 {
        lemma_rebound_bindings_available(board, stale.drop_last(), nets);
        let s = stale.last();
        let rest = rebound_bindings(board, stale.drop_last(), nets);
        law_suggested_nets_available(s, spec_candidate_pcb_nets(board, s), nets);
        let sug = spec_suggest_pcb_nets(s, spec_candidate_pcb_nets(board, s), nets);
        if spec_should_auto_apply(sug) {
            assert(nets.contains(sug[0].0));
            let b = spec_rebinding(board, s, nets).unwrap();
            assert(rest.push(b)[rest.len() as int] == b);
        }
    }
}

// ---------------------------------------------------------------------------
// Binding the host board's signals by their common aliases
// ---------------------------------------------------------------------------

/// The automatic bindings made for `signals`, in order, skipping a signal
/// already in `bound` or bound earlier in the pass.
pub open spec fn added_bindings(
    bound: Seq<Seq<char>>,
    board: HostBoard,
    signals: Seq<Seq<char>>,
    nets: Seq<Seq<char>>,
) -> Seq<BindingView>
    decreases signals.len(),
{
    if signals.len() == 0 {
        Seq::empty()
    } else {
        let rest = added_bindings(bound, board, signals.drop_last(), nets);
        let s = signals.last();
        if (bound + binding_signals(rest)).contains(s) {
            rest
        } else {
            match spec_auto_binding(board, s, nets) {
                Some(b) => rest.push(b),
                None => rest,
            }
        }
    }
}

/// The bindings an auto-binding pass starts from.
pub open spec fn auto_bind_base(bindings: Seq<SignalBinding>, clear_existing: bool) -> Seq<BindingView> {
    if clear_existing {
        Seq::empty()
    } else {
        bviews(bindings)
    }
}

/// The signals of a list of bindings.
fn signals_of(bindings: &Vec<SignalBinding>) -> (r: Vec<String>)
    ensures
        views(r@) == binding_signals(bviews(bindings@)),
{
    let mut r: Vec<String> = Vec::new();
    let mut i: usize = 0;
    while i < bindings.len()
        invariant
            i <= bindings@.len(),
            views(r@) == binding_signals(bviews(bindings@.take(i as int))),
        decreases bindings.len() - i,
    {
        let ghost before = views(r@);
        r.push(bindings[i].board_signal.clone());
        assert(bviews(bindings@.take(i + 1)) =~= bviews(bindings@.take(i as int)).push(bview(bindings@[i as int])));
        assert(views(r@) =~= before.push(bindings@[i as int].board_signal@));
        i = i + 1;
    }
    assert(bindings@.take(bindings@.len() as int) =~= bindings@);
    r
}

/// Binds each host signal (`host_signals`) not bound yet whose best net of
/// the loaded PCB (`available_nets`) is a clear match, first dropping every
/// binding when `clear_existing` is set. Returns how many it bound. With no
/// nets, nothing changes.
pub fn auto_bind_common_aliases(
    bindings: &mut Vec<SignalBinding>,
    board: HostBoard,
    host_signals: &[String],
    available_nets: &[String],
    clear_existing: bool,
) -> (r: usize)
    requires
        strictly_sorted(views(available_nets@)),
    ensures
        available_nets@.len() == 0 ==> r == 0 && final(bindings)@ == old(bindings)@,
        available_nets@.len() > 0 ==> {
            let base = auto_bind_base(old(bindings)@, clear_existing);
            let added = added_bindings(
                binding_signals(base),
                board,
                views(host_signals@),
                views(available_nets@),
            );
            &&& bviews(final(bindings)@) == sort_by_signal(base + added)
            &&& r == added.len()
        },
{
    if available_nets.len() == 0 {
        return 0;
    }
    let ghost nv = views(available_nets@);
    let ghost sig = views(host_signals@);
    let mut base: Vec<SignalBinding> = Vec::new();
    std::mem::swap(&mut base, bindings);
    if clear_existing {
        base = Vec::new();
    }
    let ghost bv = bviews(base@);
    assert(bv == auto_bind_base(old(bindings)@, clear_existing));
    let mut bound = signals_of(&base);
    let mut added: Vec<SignalBinding> = Vec::new();
    let mut i: usize = 0;
    while i < host_signals.len()
        invariant
            nv == views(available_nets@),
            strictly_sorted(nv),
            sig == views(host_signals@),
            bv == bviews(base@),
            i <= sig.len(),
            bviews(added@) == added_bindings(binding_signals(bv), board, sig.take(i as int), nv),
            views(bound@) == binding_signals(bv) + binding_signals(bviews(added@)),
        decreases host_signals.len() - i,
    {
        assert(sig.take(i + 1).drop_last() =~= sig.take(i as int));
        assert(sig.take(i + 1).last() == host_signals@[i as int]@);
        let signal = host_signals[i].as_str();
        let ghost before = bviews(added@);
        let ghost bound_before = views(bound@);
        if !contains_str(bound.as_slice(), signal) {
            let suggestions = controller_signal_suggestions(board, signal, available_nets);
            if should_auto_apply_suggestion(suggestions.as_slice()) {
                let best = &suggestions[0];
                let mut note = owned("Auto-bound by arduino_simulator (");
                note.append(best.confidence_label());
                note.append(", ");
                note.append(best.reason);
                note.append(")");
                added.push(
                    SignalBinding {
                        board_signal: owned(signal),
                        pcb_net: best.net_name.clone(),
                        mode: infer_binding_mode(signal),
                        note: Some(note),
                    },
                );
                bound.push(owned(signal));
                assert(sviews(suggestions@)[0] == sview(suggestions@[0]));
                let ghost b = spec_auto_binding(board, signal@, nv).unwrap();
                assert(bviews(added@) =~= before.push(b));
                assert(binding_signals(bviews(added@)) =~= binding_signals(before).push(signal@));
                assert(views(bound@) =~= bound_before.push(signal@));
            }
        }
        i = i + 1;
    }
    assert(sig.take(sig.len() as int) =~= sig);
    let count = added.len();
    let ghost av = bviews(added@);
    let mut sorted: Vec<SignalBinding> = Vec::new();
    let mut k: usize = 0;
    while k < base.len()
        invariant
            bv == bviews(base@),
            k <= bv.len(),
            bviews(sorted@) == sort_by_signal(bv.take(k as int)),
        decreases base.len() - k,
    {
        assert(bv.take(k + 1).drop_last() =~= bv.take(k as int));
        assert(bv.take(k + 1).last() == bview(base@[k as int]));
        insert_by_signal(&mut sorted, copy_binding(&base[k]));
        k = k + 1;
    }
    assert(bv.take(bv.len() as int) =~= bv);
    let mut m: usize = 0;
    while m < added.len()
        invariant
            bv == bviews(base@),
            av == bviews(added@),
            m <= av.len(),
            bviews(sorted@) == sort_by_signal(bv + av.take(m as int)),
        decreases added.len() - m,
    {
        assert((bv + av.take(m + 1)).drop_last() =~= bv + av.take(m as int));
        assert((bv + av.take(m + 1)).last() == bview(added@[m as int]));
        insert_by_signal(&mut sorted, copy_binding(&added[m]));
        m = m + 1;
    }
    assert(av.take(av.len() as int) =~= av);
    *bindings = sorted;
    count
}

/// The bindings whose signal the board has, in order.
pub open spec fn valid_bindings(bindings: Seq<SignalBinding>, signals: Seq<Seq<char>>) -> Seq<SignalBinding>
    decreases bindings.len(),
{
    if bindings.len() == 0 {
        Seq::empty()
    } else {
        let rest = valid_bindings(bindings.drop_last(), signals);
        if signals.contains(bindings.last().board_signal@) {
            rest.push(bindings.last())
        } else {
            rest
        }
    }
}

/// The notice shown after switching the host board.
pub open spec fn spec_board_switch_notice(board: HostBoard, bound: Option<nat>) -> Seq<char> {
    match bound {
        Some(n) => "Switched host board to "@ + spec_host_board_label(board) + " and auto-wired "@
            + spec_decimal(n) + " signal(s) to the loaded PCB."@,
        None => "Switched host board to "@ + spec_host_board_label(board)
            + "; wiring will be available after you load a PCB."@,
    }
}

/// After the host board changed to `board` (whose signals are
/// `host_signals`): drops the bindings of signals the board lacks and, with
/// a PCB loaded (its nets `loaded_nets`), binds the board afresh. Returns
/// the notice to show.
pub fn prune_bindings_for_selected_board(
    bindings: &mut Vec<SignalBinding>,
    board: HostBoard,
    host_signals: &[String],
    loaded_nets: Option<&[String]>,
) -> (notice: String)
    requires
        loaded_nets matches Some(nets) ==> strictly_sorted(views(nets@)),
    ensures
        match loaded_nets {
            None => {
                &&& final(bindings)@ == valid_bindings(old(bindings)@, views(host_signals@))
                &&& notice@ == spec_board_switch_notice(board, None)
            },
            Some(nets) => {
                let valid = valid_bindings(old(bindings)@, views(host_signals@));
                let added = added_bindings(Seq::empty(), board, views(host_signals@), views(nets@));
                &&& nets@.len() == 0 ==> final(bindings)@ == valid
                &&& nets@.len() > 0 ==> bviews(final(bindings)@) == sort_by_signal(added)
                &&& notice@ == spec_board_switch_notice(
                    board,
                    Some(if nets@.len() == 0 { 0nat } else { added.len() }),
                )
            },
        },
{
    let ghost sig = views(host_signals@);
    let ghost old_b = bindings@;
    let mut kept: Vec<SignalBinding> = Vec::new();
    let mut i: usize = 0;
    while i < bindings.len()
        invariant
            sig == views(host_signals@),
            old_b == bindings@,
            i <= old_b.len(),
            kept@ == valid_bindings(old_b.take(i as int), sig),
        decreases bindings.len() - i,
    {
        assert(old_b.take(i + 1).drop_last() =~= old_b.take(i as int));
        assert(old_b.take(i + 1).last() == old_b[i as int]);
        if contains_str(host_signals, bindings[i].board_signal.as_str()) {
            kept.push(copy_binding(&bindings[i]));
        }
        i = i + 1;
    }
    assert(old_b.take(old_b.len() as int) =~= old_b);
    *bindings = kept;
    let mut text = chars_of("Switched host board to ");
    push_str(&mut text, board.label());
    match loaded_nets {
        Some(nets) => {
            let bound = auto_bind_common_aliases(bindings, board, host_signals, nets, true);
            push_str(&mut text, " and auto-wired ");
            push_all(&mut text, &decimal(bound as u64));
            push_str(&mut text, " signal(s) to the loaded PCB.");
            proof {
                assert(binding_signals(Seq::<BindingView>::empty()) =~= Seq::<Seq<char>>::empty());
            }
        },
        None => {
            push_str(&mut text, "; wiring will be available after you load a PCB.");
        },
    }
    string_of(&text)
}

// ---------------------------------------------------------------------------
// Module overlays
// ---------------------------------------------------------------------------

/// The first position from `k` whose name sorts after `x`.
pub open spec fn name_position(r: Seq<Seq<char>>, x: Seq<char>, k: int) -> int
    decreases r.len() - k,
{
    if k < 0 || k >= r.len() {
        r.len() as int
    } else if chars_lt(x, r[k]) {
        k
    } else {
        name_position(r, x, k + 1)
    }
}

/// Names sorted, stably (insertion sort).
pub open spec fn sort_names(s: Seq<Seq<char>>) -> Seq<Seq<char>>
    decreases s.len(),
{
    if s.len() == 0 {
        Seq::empty()
    } else {
        let r = sort_names(s.drop_last());
        r.insert(name_position(r, s.last(), 0), s.last())
    }
}

proof fn lemma_name_position(r: Seq<Seq<char>>, x: Seq<char>, k: int)
    requires
        0 <= k <= r.len(),
    ensures
        k <= name_position(r, x, k) <= r.len(),
        forall|m: int| k <= m < name_position(r, x, k) ==> !chars_lt(x, #[trigger] r[m]),
        name_position(r, x, k) < r.len() ==> chars_lt(x, r[name_position(r, x, k)]),
    decreases r.len() - k,
{
    if k < r.len() && !chars_lt(x, r[k]) {
        lemma_name_position(r, x, k + 1);
    }
}

/// No name of `r` sorts before an earlier one.
pub open spec fn names_sorted(r: Seq<Seq<char>>) -> bool {
    forall|i: int, j: int| 0 <= i < j < r.len() ==> !chars_lt(#[trigger] r[j], #[trigger] r[i])
}

/// Module signal names come sorted, and are exactly the model's net names.
pub proof fn law_module_signal_names_sorted(nets: Seq<Seq<char>>)
    ensures
        names_sorted(sort_names(nets)),
        sort_names(nets).to_multiset() == nets.to_multiset(),
    decreases nets.len(),
{
    broadcast use vstd::seq_lib::to_multiset_build, vstd::seq_lib::to_multiset_insert;

    if nets.len() > 0 {
        let r = sort_names(nets.drop_last());
        let x = nets.last();
        law_module_signal_names_sorted(nets.drop_last());
        lemma_name_position(r, x, 0);
        let p = name_position(r, x, 0);
        let t = r.insert(p, x);
        assert forall|i: int, j: int| 0 <= i < j < t.len() implies !chars_lt(#[trigger] t[j], #[trigger] t[i]) by {
            if j < p {
                assert(t[i] == r[i] && t[j] == r[j]);
            } else if j == p {
                assert(t[i] == r[i]);
                assert(!chars_lt(x, r[i]));
            } else if i < p {
                assert(t[i] == r[i] && t[j] == r[j - 1]);
            } else if i == p {
                assert(t[j] == r[j - 1]);
                if chars_lt(r[j - 1], x) {
                    lemma_chars_lt_transitive(r[j - 1], x, r[p]);
                    if j - 1 == p {
                        lemma_chars_lt_irreflexive(r[p]);
                    }
                }
            } else {
                assert(t[i] == r[i - 1] && t[j] == r[j - 1]);
            }
        }
        assert(nets =~= nets.drop_last().push(x));
        vstd::seq_lib::to_multiset_insert(r, p, x);
        vstd::seq_lib::to_multiset_build(nets.drop_last(), x);
    } else {
        assert(nets =~= Seq::empty());
    }
}

/// The signal names of a module model: the model's net names (`net_names`),
/// sorted.
pub fn module_signal_names(net_names: &[String]) -> (r: Vec<String>)
    ensures
        views(r@) == sort_names(views(net_names@)),
{
    let ghost nv = views(net_names@);
    let mut sorted: Vec<String> = Vec::new();
    let mut i: usize = 0;
    while i < net_names.len()
        invariant
            nv == views(net_names@),
            i <= nv.len(),
            views(sorted@) == sort_names(nv.take(i as int)),
        decreases net_names.len() - i,
    {
        assert(nv.take(i + 1).drop_last() =~= nv.take(i as int));
        let ghost rv = views(sorted@);
        let ghost x = net_names@[i as int]@;
        assert(nv.take(i + 1).last() == x);
        let name = net_names[i].as_str();
        let mut k: usize = 0;
        let mut found = false;
        while k < sorted.len() && !found
            invariant
                rv == views(sorted@),
                x == name@,
                k <= rv.len(),
                found ==> k < rv.len() && chars_lt(x, rv[k as int]),
                name_position(rv, x, 0) == name_position(rv, x, k as int),
            decreases sorted.len() - k + (if found { 0int } else { 1int }),
        {
            if str_less(name, sorted[k].as_str()) {
                found = true;
            } else {
                k = k + 1;
            }
        }
        proof {
            lemma_name_position(rv, x, k as int);
        }
        sorted.insert(k, owned(name));
        assert(views(sorted@) =~= rv.insert(k as int, x));
        i = i + 1;
    }
    assert(nv.take(nv.len() as int) =~= nv);
    sorted
}

/// A module binding as plain values: signal, net, mode and note.
pub open spec fn mview(b: ModuleSignalBinding) -> BindingView {
    (
        b.module_signal@,
        b.pcb_net@,
        b.mode,
        match b.note {
            Some(n) => Some(n@),
            None => None,
        },
    )
}

pub open spec fn mviews(v: Seq<ModuleSignalBinding>) -> Seq<BindingView> {
    v.map_values(|b: ModuleSignalBinding| mview(b))
}

/// The binding last listed for a module signal.
pub open spec fn module_binding_of(bindings: Seq<ModuleSignalBinding>, signal: Seq<char>) -> Option<
    ModuleSignalBinding,
>
    decreases bindings.len(),
{
    if bindings.len() == 0 {
        None
    } else if bindings.last().module_signal@ == signal {
        Some(bindings.last())
    } else {
        module_binding_of(bindings.drop_last(), signal)
    }
}

fn module_binding_lookup(bindings: &Vec<ModuleSignalBinding>, signal: &str) -> (r: Option<usize>)
    ensures
        match r {
            Some(i) => i < bindings@.len() && module_binding_of(bindings@, signal@) == Some(bindings@[i as int]),
            None => module_binding_of(bindings@, signal@) is None,
        },
{
    let mut i: usize = bindings.len();
    assert(bindings@.take(i as int) =~= bindings@);
    while i > 0
        invariant
            i <= bindings@.len(),
            module_binding_of(bindings@, signal@) == module_binding_of(bindings@.take(i as int), signal@),
        decreases i,
    {
        assert(bindings@.take(i as int).drop_last() =~= bindings@.take(i - 1));
        if str_eq(bindings[i - 1].module_signal.as_str(), signal) {
            return Some(i - 1);
        }
        i = i - 1;
    }
    None
}

/// The binding auto-wiring gives one module signal: the best net when it is
/// a clear match (noted so), else the net it was wired to before, with its
/// note; none when neither exists.
pub open spec fn spec_module_wiring(
    model: Seq<char>,
    existing: Seq<ModuleSignalBinding>,
    signal: Seq<char>,
    nets: Seq<Seq<char>>,
) -> Option<BindingView> {
    let sug = spec_suggest_pcb_nets(signal, spec_module_signal_aliases(model, signal), nets);
    let mode = spec_infer_binding_mode(signal);
    if spec_should_auto_apply(sug) {
        Some(
            (
                signal,
                sug[0].0,
                mode,
                Some(
                    "Auto-wired by arduino_simulator ("@ + spec_confidence_label(sug[0].1) + ", "@
                        + sug[0].2 + ")"@,
                ),
            ),
        )
    } else {
        match module_binding_of(existing, signal) {
            Some(b) => Some((signal, b.pcb_net@, mode, mview(b).3)),
            None => None,
        }
    }
}

/// The bindings auto-wiring gives the signals, in order.
pub open spec fn spec_module_wirings(
    model: Seq<char>,
    existing: Seq<ModuleSignalBinding>,
    signals: Seq<Seq<char>>,
    nets: Seq<Seq<char>>,
) -> Seq<BindingView>
    decreases signals.len(),
{
    if signals.len() == 0 {
        Seq::empty()
    } else {
        let rest = spec_module_wirings(model, existing, signals.drop_last(), nets);
        match spec_module_wiring(model, existing, signals.last(), nets) {
            Some(b) => rest.push(b),
            None => rest,
        }
    }
}

/// Wires each signal of the module (`signal_names`, from
/// `module_signal_names`) to its best net of the loaded PCB (`loaded_nets`)
/// when that is a clear match, else keeps the net it had. Signals with
/// neither are left unwired. Without a PCB every binding is dropped.
/// Returns how many signals are wired.
pub fn auto_wire_module_overlay(
    module: &mut ModuleOverlay,
    signal_names: &[String],
    loaded_nets: Option<&[String]>,
) -> (r: usize)
    ensures
        final(module).name == old(module).name,
        final(module).model == old(module).model,
        match loaded_nets {
            None => final(module).bindings@.len() == 0 && r == 0,
            Some(nets) => {
                &&& mviews(final(module).bindings@) == spec_module_wirings(
                    old(module).model@,
                    old(module).bindings@,
                    views(signal_names@),
                    views(nets@),
                )
                &&& r == final(module).bindings@.len()
            },
        },
{
    let nets = match loaded_nets {
        None => {
            module.bindings = Vec::new();
            return 0;
        },
        Some(nets) => nets,
    };
    let ghost nv = views(nets@);
    let ghost sig = views(signal_names@);
    let ghost old_b = module.bindings@;
    let mut next: Vec<ModuleSignalBinding> = Vec::new();
    let mut i: usize = 0;
    while i < signal_names.len()
        invariant
            nv == views(nets@),
            sig == views(signal_names@),
            old_b == module.bindings@,
            i <= sig.len(),
            mviews(next@) == spec_module_wirings(module.model@, old_b, sig.take(i as int), nv),
        decreases signal_names.len() - i,
    {
        assert(sig.take(i + 1).drop_last() =~= sig.take(i as int));
        assert(sig.take(i + 1).last() == signal_names@[i as int]@);
        let signal = signal_names[i].as_str();
        let mode = infer_binding_mode(signal);
        let suggestions = module_signal_suggestions(module.model.as_str(), signal, nets);
        let existing = module_binding_lookup(&module.bindings, signal);
        let ghost before = mviews(next@);
        if should_auto_apply_suggestion(suggestions.as_slice()) {
            let best = &suggestions[0];
            let mut note = owned("Auto-wired by arduino_simulator (");
            note.append(best.confidence_label());
            note.append(", ");
            note.append(best.reason);
            note.append(")");
            next.push(
                ModuleSignalBinding {
                    module_signal: owned(signal),
                    pcb_net: best.net_name.clone(),
                    mode,
                    note: Some(note),
                },
            );
            assert(sviews(suggestions@)[0] == sview(suggestions@[0]));
            assert(mviews(next@) =~= before.push(
                spec_module_wiring(module.model@, old_b, signal@, nv).unwrap(),
            ));
        } else {
            match existing {
                Some(j) => {
                    let b = &module.bindings[j];
                    let note = match &b.note {
                        Some(n) => Some(n.clone()),
                        None => None,
                    };
                    next.push(
                        ModuleSignalBinding {
                            module_signal: owned(signal),
                            pcb_net: b.pcb_net.clone(),
                            mode,
                            note,
                        },
                    );
                    assert(mviews(next@) =~= before.push(
                        spec_module_wiring(module.model@, old_b, signal@, nv).unwrap(),
                    ));
                },
                None => {},
            }
        }
        i = i + 1;
    }
    assert(sig.take(sig.len() as int) =~= sig);
    let wired = next.len();
    module.bindings = next;
    wired
}

/// A net suggested for an unwired module signal.
#[derive(Debug, Clone)]
pub struct ModuleSignalSuggestion {
    pub module_signal: String,
    pub suggestion: NetSuggestion,
}

pub type ModuleSuggestionView = (Seq<char>, (Seq<char>, int, Seq<char>));

pub open spec fn msview(s: ModuleSignalSuggestion) -> ModuleSuggestionView {
    (s.module_signal@, sview(s.suggestion))
}

pub open spec fn msviews(v: Seq<ModuleSignalSuggestion>) -> Seq<ModuleSuggestionView> {
    v.map_values(|s: ModuleSignalSuggestion| msview(s))
}

/// Whether some binding wires `signal`.
pub open spec fn module_signal_bound(bindings: Seq<ModuleSignalBinding>, signal: Seq<char>) -> bool {
    exists|k: int| 0 <= k < bindings.len() && #[trigger] bindings[k].module_signal@ == signal
}

/// For each unwired signal, its best net when it scores at least 200, in
/// the order of the signals.
pub open spec fn module_suggestion_candidates(
    model: Seq<char>,
    bindings: Seq<ModuleSignalBinding>,
    signals: Seq<Seq<char>>,
    nets: Seq<Seq<char>>,
) -> Seq<ModuleSuggestionView>
    decreases signals.len(),
{
    if signals.len() == 0 {
        Seq::empty()
    } else {
        let rest = module_suggestion_candidates(model, bindings, signals.drop_last(), nets);
        let s = signals.last();
        let sug = spec_suggest_pcb_nets(s, spec_module_signal_aliases(model, s), nets);
        if !module_signal_bound(bindings, s) && sug.len() > 0 && sug[0].1 >= 200 {
            rest.push((s, sug[0]))
        } else {
            rest
        }
    }
}

/// `x` goes before `y`: a higher score, or the same score and a signal
/// name that sorts first.
pub open spec fn module_suggestion_before(x: ModuleSuggestionView, y: ModuleSuggestionView) -> bool {
    x.1.1 > y.1.1 || (x.1.1 == y.1.1 && chars_lt(x.0, y.0))
}

pub open spec fn module_suggestion_position(r: Seq<ModuleSuggestionView>, x: ModuleSuggestionView, k: int) -> int
    decreases r.len() - k,
{
    if k < 0 || k >= r.len() {
        r.len() as int
    } else if module_suggestion_before(x, r[k]) {
        k
    } else {
        module_suggestion_position(r, x, k + 1)
    }
}

/// Suggestions sorted best first, stably (insertion sort).
pub open spec fn rank_module_suggestions(s: Seq<ModuleSuggestionView>) -> Seq<ModuleSuggestionView>
    decreases s.len(),
{
    if s.len() == 0 {
        Seq::empty()
    } else {
        let r = rank_module_suggestions(s.drop_last());
        r.insert(module_suggestion_position(r, s.last(), 0), s.last())
    }
}

proof fn lemma_module_suggestion_position_bounds(r: Seq<ModuleSuggestionView>, x: ModuleSuggestionView, k: int)
    requires
        0 <= k <= r.len(),
    ensures
        k <= module_suggestion_position(r, x, k) <= r.len(),
    decreases r.len() - k,
{
    if k < r.len() && !module_suggestion_before(x, r[k]) {
        lemma_module_suggestion_position_bounds(r, x, k + 1);
    }
}

fn module_signal_is_bound(bindings: &Vec<ModuleSignalBinding>, signal: &str) -> (r: bool)
    ensures
        r == module_signal_bound(bindings@, signal@),
{
    let mut i: usize = 0;
    while i < bindings.len()
        invariant
            i <= bindings@.len(),
            forall|k: int| 0 <= k < i ==> bindings@[k].module_signal@ != signal@,
        decreases bindings.len() - i,
    {
        if str_eq(bindings[i].module_signal.as_str(), signal) {
            return true;
        }
        i = i + 1;
    }
    false
}

fn copy_suggestion(s: &NetSuggestion) -> (r: NetSuggestion)
    ensures
        sview(r) == sview(*s),
{
    NetSuggestion { net_name: s.net_name.clone(), score: s.score, reason: s.reason }
}

/// For each signal of the module (`signal_names`) not wired yet, the best
/// net of the loaded PCB (`loaded_nets`) when it scores at least 200; best
/// first, then by signal name. None without a PCB.
pub fn suggested_module_bindings(
    module: &ModuleOverlay,
    signal_names: &[String],
    loaded_nets: Option<&[String]>,
) -> (r: Vec<ModuleSignalSuggestion>)
    ensures
        match loaded_nets {
            None => r@.len() == 0,
            Some(nets) => msviews(r@) == rank_module_suggestions(
                module_suggestion_candidates(
                    module.model@,
                    module.bindings@,
                    views(signal_names@),
                    views(nets@),
                ),
            ),
        },
{
    let nets = match loaded_nets {
        None => {
            return Vec::new();
        },
        Some(nets) => nets,
    };
    let ghost nv = views(nets@);
    let ghost sig = views(signal_names@);
    let mut found: Vec<ModuleSignalSuggestion> = Vec::new();
    let mut i: usize = 0;
    while i < signal_names.len()
        invariant
            nv == views(nets@),
            sig == views(signal_names@),
            i <= sig.len(),
            msviews(found@) == module_suggestion_candidates(
                module.model@,
                module.bindings@,
                sig.take(i as int),
                nv,
            ),
        decreases signal_names.len() - i,
    {
        assert(sig.take(i + 1).drop_last() =~= sig.take(i as int));
        assert(sig.take(i + 1).last() == signal_names@[i as int]@);
        let signal = signal_names[i].as_str();
        let ghost before = msviews(found@);
        if !module_signal_is_bound(&module.bindings, signal) {
            let suggestions = module_signal_suggestions(module.model.as_str(), signal, nets);
            if suggestions.len() > 0 && suggestions[0].score >= 200 {
                found.push(
                    ModuleSignalSuggestion {
                        module_signal: owned(signal),
                        suggestion: copy_suggestion(&suggestions[0]),
                    },
                );
                assert(sviews(suggestions@)[0] == sview(suggestions@[0]));
                assert(msviews(found@) =~= before.push((signal@, sview(suggestions@[0]))));
            }
        }
        i = i + 1;
    }
    assert(sig.take(sig.len() as int) =~= sig);
    let ghost fv = msviews(found@);
    let mut ranked: Vec<ModuleSignalSuggestion> = Vec::new();
    let mut k: usize = 0;
    while k < found.len()
        invariant
            fv == msviews(found@),
            k <= fv.len(),
            msviews(ranked@) == rank_module_suggestions(fv.take(k as int)),
        decreases found.len() - k,
    {
        assert(fv.take(k + 1).drop_last() =~= fv.take(k as int));
        let ghost rv = msviews(ranked@);
        let ghost x = msview(found@[k as int]);
        assert(fv.take(k + 1).last() == x);
        let item = ModuleSignalSuggestion {
            module_signal: found[k].module_signal.clone(),
            suggestion: copy_suggestion(&found[k].suggestion),
        };
        let mut p: usize = 0;
        let mut stop = false;
        while p < ranked.len() && !stop
            invariant
                rv == msviews(ranked@),
                x == msview(item),
                p <= rv.len(),
                stop ==> p < rv.len() && module_suggestion_before(x, rv[p as int]),
                module_suggestion_position(rv, x, 0) == module_suggestion_position(rv, x, p as int),
            decreases ranked.len() - p + (if stop { 0int } else { 1int }),
        {
            let other = &ranked[p];
            if item.suggestion.score > other.suggestion.score || (item.suggestion.score
                == other.suggestion.score && str_less(
                item.module_signal.as_str(),
                other.module_signal.as_str(),
            )) {
                stop = true;
            } else {
                p = p + 1;
            }
        }
        proof {
            lemma_module_suggestion_position_bounds(rv, x, p as int);
        }
        ranked.insert(p, item);
        assert(msviews(ranked@) =~= rv.insert(p as int, x));
        k = k + 1;
    }
    assert(fv.take(fv.len() as int) =~= fv);
    ranked
}

// ---------------------------------------------------------------------------
// Connections and highlighted nets
// ---------------------------------------------------------------------------

/// A controller pin wired to a PCB net.
#[derive(Debug, Clone, PartialEq, Eq)]
pub struct ControllerConnection {
    pub controller_pin: String,
    pub pcb_net: String,
    pub mode: BindingMode,
}

pub type ConnectionView = (Seq<char>, Seq<char>, BindingMode);

pub open spec fn cview(c: ControllerConnection) -> ConnectionView {
    (c.controller_pin@, c.pcb_net@, c.mode)
}

pub open spec fn cviews(v: Seq<ControllerConnection>) -> Seq<ConnectionView> {
    v.map_values(|c: ControllerConnection| cview(c))
}

/// `x` sorts before `y`: by pin name, then by net name.
pub open spec fn connection_before(x: ConnectionView, y: ConnectionView) -> bool {
    chars_lt(x.0, y.0) || (x.0 == y.0 && chars_lt(x.1, y.1))
}

pub open spec fn connection_position(r: Seq<ConnectionView>, x: ConnectionView, k: int) -> int
    decreases r.len() - k,
{
    if k < 0 || k >= r.len() {
        r.len() as int
    } else if connection_before(x, r[k]) {
        k
    } else {
        connection_position(r, x, k + 1)
    }
}

/// Connections sorted by pin, then net, stably (insertion sort).
pub open spec fn sort_connections(s: Seq<ConnectionView>) -> Seq<ConnectionView>
    decreases s.len(),
{
    if s.len() == 0 {
        Seq::empty()
    } else {
        let r = sort_connections(s.drop_last());
        r.insert(connection_position(r, s.last(), 0), s.last())
    }
}

/// The connection a binding makes.
pub open spec fn binding_connection(b: SignalBinding) -> ConnectionView {
    (b.board_signal@, b.pcb_net@, b.mode)
}

proof fn lemma_connection_position(r: Seq<ConnectionView>, x: ConnectionView, k: int)
    requires
        0 <= k <= r.len(),
    ensures
        k <= connection_position(r, x, k) <= r.len(),
        forall|m: int| k <= m < connection_position(r, x, k) ==> !connection_before(x, #[trigger] r[m]),
        connection_position(r, x, k) < r.len() ==> connection_before(x, r[connection_position(r, x, k)]),
    decreases r.len() - k,
{
    if k < r.len() && !connection_before(x, r[k]) {
        lemma_connection_position(r, x, k + 1);
    }
}

proof fn lemma_connection_order(x: ConnectionView, y: ConnectionView, z: ConnectionView)
    ensures
        !(connection_before(x, y) && connection_before(y, x)),
        connection_before(x, y) && connection_before(y, z) ==> connection_before(x, z),
{
    lemma_chars_lt_asymmetric(x.0, y.0);
    lemma_chars_lt_asymmetric(x.1, y.1);
    lemma_chars_lt_irreflexive(x.0);
    lemma_chars_lt_irreflexive(y.0);
    if connection_before(x, y) && connection_before(y, z) {
        if chars_lt(x.0, y.0) && chars_lt(y.0, z.0) {
            lemma_chars_lt_transitive(x.0, y.0, z.0);
        } else if x.0 == y.0 && y.0 == z.0 {
            lemma_chars_lt_transitive(x.1, y.1, z.1);
        }
    }
}

/// No connection of `r` sorts before an earlier one.
pub open spec fn connections_sorted(r: Seq<ConnectionView>) -> bool {
    forall|i: int, j: int| 0 <= i < j < r.len() ==> !connection_before(#[trigger] r[j], #[trigger] r[i])
}

/// Connections come sorted by pin, then net, and are exactly those of the
/// bindings.
pub proof fn law_connections_sorted(s: Seq<ConnectionView>)
    ensures
        connections_sorted(sort_connections(s)),
        sort_connections(s).to_multiset() == s.to_multiset(),
    decreases s.len(),
{
    broadcast use vstd::seq_lib::to_multiset_build, vstd::seq_lib::to_multiset_insert;

    if s.len() > 0 {
        let r = sort_connections(s.drop_last());
        let x = s.last();
        law_connections_sorted(s.drop_last());
        lemma_connection_position(r, x, 0);
        let p = connection_position(r, x, 0);
        let t = r.insert(p, x);
        assert forall|i: int, j: int| 0 <= i < j < t.len() implies !connection_before(
            #[trigger] t[j],
            #[trigger] t[i],
        ) by {
            if j < p {
                assert(t[i] == r[i] && t[j] == r[j]);
            } else if j == p {
                assert(t[i] == r[i]);
                assert(!connection_before(x, r[i]));
            } else if i < p {
                assert(t[i] == r[i] && t[j] == r[j - 1]);
            } else if i == p {
                assert(t[j] == r[j - 1]);
                if connection_before(r[j - 1], x) {
                    lemma_connection_order(r[j - 1], x, r[p]);
                    if j - 1 == p {
                        lemma_connection_order(x, r[p], x);
                    }
                }
            } else {
                assert(t[i] == r[i - 1] && t[j] == r[j - 1]);
            }
        }
        assert(s =~= s.drop_last().push(x));
        vstd::seq_lib::to_multiset_insert(r, p, x);
        vstd::seq_lib::to_multiset_build(s.drop_last(), x);
    } else {
        assert(s =~= Seq::empty());
    }
}

/// The controller's connections: one per binding, sorted by pin, then net.
pub fn controller_connections(bindings: &[SignalBinding]) -> (r: Vec<ControllerConnection>)
    ensures
        cviews(r@) == sort_connections(bindings@.map_values(|b: SignalBinding| binding_connection(b))),
{
    let ghost all = bindings@.map_values(|b: SignalBinding| binding_connection(b));
    let mut sorted: Vec<ControllerConnection> = Vec::new();
    let mut i: usize = 0;
    while i < bindings.len()
        invariant
            all == bindings@.map_values(|b: SignalBinding| binding_connection(b)),
            i <= bindings@.len(),
            cviews(sorted@) == sort_connections(all.take(i as int)),
        decreases bindings.len() - i,
    {
        assert(all.take(i + 1).drop_last() =~= all.take(i as int));
        let ghost rv = cviews(sorted@);
        let b = &bindings[i];
        let item = ControllerConnection {
            controller_pin: b.board_signal.clone(),
            pcb_net: b.pcb_net.clone(),
            mode: b.mode,
        };
        let ghost x = cview(item);
        assert(all.take(i + 1).last() == x);
        let mut p: usize = 0;
        let mut stop = false;
        while p < sorted.len() && !stop
            invariant
                rv == cviews(sorted@),
                x == cview(item),
                p <= rv.len(),
                stop ==> p < rv.len() && connection_before(x, rv[p as int]),
                connection_position(rv, x, 0) == connection_position(rv, x, p as int),
            decreases sorted.len() - p + (if stop { 0int } else { 1int }),
        {
            let other = &sorted[p];
            if str_less(item.controller_pin.as_str(), other.controller_pin.as_str()) || (str_eq(
                item.controller_pin.as_str(),
                other.controller_pin.as_str(),
            ) && str_less(item.pcb_net.as_str(), other.pcb_net.as_str())) {
                stop = true;
            } else {
                p = p + 1;
            }
        }
        proof {
            lemma_connection_position(rv, x, p as int);
        }
        sorted.insert(p, item);
        assert(cviews(sorted@) =~= rv.insert(p as int, x));
        i = i + 1;
    }
    assert(all.take(all.len() as int) =~= all);
    sorted
}

/// The names of `s` as a sorted set: each once, in order.
pub open spec fn name_set(s: Seq<Seq<char>>) -> Seq<Seq<char>>
    decreases s.len(),
{
    if s.len() == 0 {
        Seq::empty()
    } else {
        let r = name_set(s.drop_last());
        if r.contains(s.last()) {
            r
        } else {
            r.insert(name_position(r, s.last(), 0), s.last())
        }
    }
}

/// A set of net names is sorted, lists each name once, and holds exactly the
/// names given.
pub proof fn law_name_set(s: Seq<Seq<char>>)
    ensures
        strictly_sorted(name_set(s)),
        forall|x: Seq<char>| #[trigger] name_set(s).contains(x) == s.contains(x),
    decreases s.len(),
{
    if s.len() > 0 {
        let init = s.drop_last();
        let x = s.last();
        law_name_set(init);
        let r = name_set(init);
        if !r.contains(x) {
            lemma_name_position(r, x, 0);
            let p = name_position(r, x, 0);
            let t = r.insert(p, x);
            assert forall|i: int, j: int| 0 <= i < j < t.len() implies chars_lt(#[trigger] t[i], #[trigger] t[j]) by {
                if j < p {
                    assert(t[i] == r[i] && t[j] == r[j]);
                } else if j == p {
                    assert(t[i] == r[i]);
                    assert(!chars_lt(x, r[i]));
                    lemma_chars_lt_total(x, r[i]);
                } else if i < p {
                    assert(t[i] == r[i] && t[j] == r[j - 1]);
                } else if i == p {
                    assert(t[j] == r[j - 1]);
                    if j - 1 > p {
                        lemma_chars_lt_transitive(x, r[p], r[j - 1]);
                    }
                } else {
                    assert(t[i] == r[i - 1] && t[j] == r[j - 1]);
                }
            }
            assert forall|y: Seq<char>| #[trigger] t.contains(y) == s.contains(y) by {
                if t.contains(y) {
                    let k = choose|k: int| 0 <= k < t.len() && t[k] == y;
                    if k < p {
                        assert(r[k] == y);
                        assert(r.contains(y));
                    } else if k > p {
                        assert(r[k - 1] == y);
                        assert(r.contains(y));
                    } else {
                        assert(s[s.len() - 1] == y);
                    }
                    if y != x {
                        assert(r.contains(y));
                        assert(init.contains(y));
                        let m = choose|m: int| 0 <= m < init.len() && init[m] == y;
                        assert(s[m] == y);
                    }
                }
                if s.contains(y) {
                    let k = choose|k: int| 0 <= k < s.len() && s[k] == y;
                    if k < init.len() {
                        assert(init[k] == y);
                        assert(r.contains(y));
                        let m = choose|m: int| 0 <= m < r.len() && r[m] == y;
                        if m < p {
                            assert(t[m] == y);
                        } else {
                            assert(t[m + 1] == y);
                        }
                    } else {
                        assert(t[p] == y);
                    }
                }
            }
        } else {
            assert forall|y: Seq<char>| #[trigger] r.contains(y) == s.contains(y) by {
                if s.contains(y) {
                    let k = choose|k: int| 0 <= k < s.len() && s[k] == y;
                    if k < init.len() {
                        assert(init[k] == y);
                    }
                }
                if init.contains(y) {
                    let m = choose|m: int| 0 <= m < init.len() && init[m] == y;
                    assert(s[m] == y);
                }
            }
        }
    }
}

/// The PCB's net names as a sorted set, each once, as the controller
/// bindings are matched against.
pub fn net_name_set(names: &[String]) -> (r: Vec<String>)
    ensures
        views(r@) == name_set(views(names@)),
        strictly_sorted(views(r@)),
{
    let ghost nv = views(names@);
    let mut set: Vec<String> = Vec::new();
    let mut i: usize = 0;
    while i < names.len()
        invariant
            nv == views(names@),
            i <= nv.len(),
            views(set@) == name_set(nv.take(i as int)),
        decreases names.len() - i,
    {
        assert(nv.take(i + 1).drop_last() =~= nv.take(i as int));
        assert(nv.take(i + 1).last() == names@[i as int]@);
        insert_name(&mut set, names[i].as_str());
        i = i + 1;
    }
    assert(nv.take(nv.len() as int) =~= nv);
    proof {
        law_name_set(nv);
    }
    set
}

/// Adds a name to a sorted set.
pub(crate) fn insert_name(set: &mut Vec<String>, name: &str)
    ensures
        views(final(set)@) == if views(old(set)@).contains(name@) {
            views(old(set)@)
        } else {
            views(old(set)@).insert(name_position(views(old(set)@), name@, 0), name@)
        },
{
    if contains_str(set.as_slice(), name) {
        return;
    }
    let ghost rv = views(set@);
    let mut k: usize = 0;
    let mut found = false;
    while k < set.len() && !found
        invariant
            rv == views(set@),
            k <= rv.len(),
            found ==> k < rv.len() && chars_lt(name@, rv[k as int]),
            name_position(rv, name@, 0) == name_position(rv, name@, k as int),
        decreases set.len() - k + (if found { 0int } else { 1int }),
    {
        if str_less(name, set[k].as_str()) {
            found = true;
        } else {
            k = k + 1;
        }
    }
    proof {
        lemma_name_position(rv, name@, k as int);
    }
    set.insert(k, owned(name));
    assert(views(set@) =~= rv.insert(k as int, name@));
}

/// The nets wired by the module overlays, in order.
pub open spec fn module_nets(overlays: Seq<ModuleOverlay>) -> Seq<Seq<char>>
    decreases overlays.len(),
{
    if overlays.len() == 0 {
        Seq::empty()
    } else {
        module_nets(overlays.drop_last()) + overlays.last().bindings@.map_values(
            |b: ModuleSignalBinding| b.pcb_net@,
        )
    }
}

/// The nets the module overlays are wired to, as a sorted set.
pub fn module_highlight_nets(overlays: &[ModuleOverlay]) -> (r: Vec<String>)
    ensures
        views(r@) == name_set(module_nets(overlays@)),
{
    let mut set: Vec<String> = Vec::new();
    let ghost all = module_nets(overlays@);
    let mut i: usize = 0;
    while i < overlays.len()
        invariant
            i <= overlays@.len(),
            views(set@) == name_set(module_nets(overlays@.take(i as int))),
        decreases overlays.len() - i,
    {
        assert(overlays@.take(i + 1).drop_last() =~= overlays@.take(i as int));
        let ghost prefix = module_nets(overlays@.take(i as int));
        let bindings = &overlays[i].bindings;
        let ghost nets = bindings@.map_values(|b: ModuleSignalBinding| b.pcb_net@);
        let mut j: usize = 0;
        while j < bindings.len()
            invariant
                nets == bindings@.map_values(|b: ModuleSignalBinding| b.pcb_net@),
                j <= bindings@.len(),
                views(set@) == name_set(prefix + nets.take(j as int)),
            decreases bindings.len() - j,
        {
            assert((prefix + nets.take(j + 1)).drop_last() =~= prefix + nets.take(j as int));
            assert((prefix + nets.take(j + 1)).last() == bindings@[j as int].pcb_net@);
            insert_name(&mut set, bindings[j].pcb_net.as_str());
            j = j + 1;
        }
        assert(nets.take(nets.len() as int) =~= nets);
        assert(module_nets(overlays@.take(i + 1)) == prefix + nets);
        i = i + 1;
    }
    assert(overlays@.take(overlays@.len() as int) =~= overlays@);
    set
}

// ---------------------------------------------------------------------------
// Bindings shown on a host-board preview
// ---------------------------------------------------------------------------

/// The bindings of the board's signals, each repeated for every preview net
/// its signal names, in order.
pub open spec fn preview_binding_list(
    board: HostBoard,
    bindings: Seq<SignalBinding>,
    signals: Seq<Seq<char>>,
    nets: Seq<Seq<char>>,
) -> Seq<BindingView>
    decreases bindings.len(),
{
    if bindings.len() == 0 {
        Seq::empty()
    } else {
        let rest = preview_binding_list(board, bindings.drop_last(), signals, nets);
        let b = bindings.last();
        if signals.contains(b.board_signal@) {
            rest + spec_preview_net_aliases(board, b.board_signal@, nets).map_values(
                |net: Seq<char>| (b.board_signal@, net, b.mode, bview(b).3),
            )
        } else {
            rest
        }
    }
}

/// Bindings sorted by signal, then net, stably.
pub open spec fn sort_preview_bindings(s: Seq<BindingView>) -> Seq<BindingView>
    decreases s.len(),
{
    if s.len() == 0 {
        Seq::empty()
    } else {
        let r = sort_preview_bindings(s.drop_last());
        let x = s.last();
        r.insert(connection_position(preview_keys(r), (x.0, x.1, x.2), 0), x)
    }
}

pub open spec fn preview_keys(s: Seq<BindingView>) -> Seq<ConnectionView> {
    s.map_values(|x: BindingView| (x.0, x.1, x.2))
}

/// Of each run of bindings with the same signal and net, the first.
pub open spec fn dedup_preview_bindings(s: Seq<BindingView>) -> Seq<BindingView>
    decreases s.len(),
{
    if s.len() == 0 {
        Seq::empty()
    } else {
        let r = dedup_preview_bindings(s.drop_last());
        if r.len() > 0 && r.last().0 == s.last().0 && r.last().1 == s.last().1 {
            r
        } else {
            r.push(s.last())
        }
    }
}

/// The bindings to draw on a host-board preview: each binding of one of the
/// board's signals (`host_signals`), once for every preview net
/// (`preview_nets`) its signal names; sorted by signal, then net, each pair
/// once.
pub fn host_board_preview_bindings(
    board: HostBoard,
    bindings: &[SignalBinding],
    host_signals: &[String],
    preview_nets: &[String],
) -> (r: Vec<SignalBinding>)
    ensures
        bviews(r@) == dedup_preview_bindings(
            sort_preview_bindings(
                preview_binding_list(board, bindings@, views(host_signals@), views(preview_nets@)),
            ),
        ),
{
    let ghost sig = views(host_signals@);
    let ghost nv = views(preview_nets@);
    let mut list: Vec<SignalBinding> = Vec::new();
    let mut i: usize = 0;
    while i < bindings.len()
        invariant
            sig == views(host_signals@),
            nv == views(preview_nets@),
            i <= bindings@.len(),
            bviews(list@) == preview_binding_list(board, bindings@.take(i as int), sig, nv),
        decreases bindings.len() - i,
    {
        assert(bindings@.take(i + 1).drop_last() =~= bindings@.take(i as int));
        assert(bindings@.take(i + 1).last() == bindings@[i as int]);
        let b = &bindings[i];
        if contains_str(host_signals, b.board_signal.as_str()) {
            let aliases = preview_net_aliases(board, b.board_signal.as_str(), preview_nets);
            let ghost av = views(aliases@);
            let ghost start = bviews(list@);
            let ghost f = |net: Seq<char>| (b.board_signal@, net, b.mode, bview(*b).3);
            let mut j: usize = 0;
            while j < aliases.len()
                invariant
                    av == views(aliases@),
                    j <= av.len(),
                    bviews(list@) == start + av.take(j as int).map_values(f),
                    f == (|net: Seq<char>| (b.board_signal@, net, b.mode, bview(*b).3)),
                decreases aliases.len() - j,
            {
                let ghost before = bviews(list@);
                list.push(
                    SignalBinding {
                        board_signal: b.board_signal.clone(),
                        pcb_net: aliases[j].clone(),
                        mode: b.mode,
                        note: match &b.note {
                            Some(n) => Some(n.clone()),
                            None => None,
                        },
                    },
                );
                assert(av.take(j + 1).map_values(f) =~= av.take(j as int).map_values(f).push(f(av[j as int])));
                assert(bviews(list@) =~= before.push(f(av[j as int])));
                j = j + 1;
            }
            assert(av.take(av.len() as int) =~= av);
        }
        i = i + 1;
    }
    assert(bindings@.take(bindings@.len() as int) =~= bindings@);
    let ghost lv = bviews(list@);
    let mut sorted: Vec<SignalBinding> = Vec::new();
    let mut k: usize = 0;
    while k < list.len()
        invariant
            lv == bviews(list@),
            k <= lv.len(),
            bviews(sorted@) == sort_preview_bindings(lv.take(k as int)),
        decreases list.len() - k,
    {
        assert(lv.take(k + 1).drop_last() =~= lv.take(k as int));
        let ghost rv = bviews(sorted@);
        let ghost rk = preview_keys(rv);
        let item = copy_binding(&list[k]);
        let ghost x = bview(item);
        let ghost xk = (x.0, x.1, x.2);
        assert(lv.take(k + 1).last() == x);
        let mut p: usize = 0;
        let mut stop = false;
        while p < sorted.len() && !stop
            invariant
                rv == bviews(sorted@),
                rk == preview_keys(rv),
                x == bview(item),
                xk == (x.0, x.1, x.2),
                p <= rv.len(),
                stop ==> p < rv.len() && connection_before(xk, rk[p as int]),
                connection_position(rk, xk, 0) == connection_position(rk, xk, p as int),
            decreases sorted.len() - p + (if stop { 0int } else { 1int }),
        {
            let other = &sorted[p];
            if str_less(item.board_signal.as_str(), other.board_signal.as_str()) || (str_eq(
                item.board_signal.as_str(),
                other.board_signal.as_str(),
            ) && str_less(item.pcb_net.as_str(), other.pcb_net.as_str())) {
                stop = true;
            } else {
                p = p + 1;
            }
        }
        proof {
            lemma_connection_position(rk, xk, p as int);
        }
        sorted.insert(p, item);
        assert(bviews(sorted@) =~= rv.insert(p as int, x));
        k = k + 1;
    }
    assert(lv.take(lv.len() as int) =~= lv);
    let ghost sv = bviews(sorted@);
    let mut unique: Vec<SignalBinding> = Vec::new();
    let mut m: usize = 0;
    while m < sorted.len()
        invariant
            sv == bviews(sorted@),
            m <= sv.len(),
            bviews(unique@) == dedup_preview_bindings(sv.take(m as int)),
        decreases sorted.len() - m,
    {
        assert(sv.take(m + 1).drop_last() =~= sv.take(m as int));
        assert(sv.take(m + 1).last() == bview(sorted@[m as int]));
        let ghost before = bviews(unique@);
        let n = unique.len();
        let same = n > 0 && str_eq(unique[n - 1].board_signal.as_str(), sorted[m].board_signal.as_str())
            && str_eq(unique[n - 1].pcb_net.as_str(), sorted[m].pcb_net.as_str());
        if !same {
            unique.push(copy_binding(&sorted[m]));
            assert(bviews(unique@) =~= before.push(bview(sorted@[m as int])));
        }
        m = m + 1;
    }
    assert(sv.take(sv.len() as int) =~= sv);
    unique
}

// ---------------------------------------------------------------------------
// Host signal activity by signal name
// ---------------------------------------------------------------------------

/// How a controller signal looks right now.
#[derive(Debug, Clone, Copy, PartialEq, Eq, Structural)]
pub struct SignalActivity {
    pub is_high: bool,
    pub is_flashing: bool,
}

/// The level last listed for a signal.
pub open spec fn level_for(levels: Seq<(Seq<char>, u8)>, name: Seq<char>) -> Option<u8>
    decreases levels.len(),
{
    if levels.len() == 0 {
        None
    } else if levels.last().0 == name {
        Some(levels.last().1)
    } else {
        level_for(levels.drop_last(), name)
    }
}

/// The flash deadline last listed for a signal.
pub open spec fn deadline_for(marks: Seq<(Seq<char>, u64)>, name: Seq<char>) -> Option<u64>
    decreases marks.len(),
{
    if marks.len() == 0 {
        None
    } else if marks.last().0 == name {
        Some(marks.last().1)
    } else {
        deadline_for(marks.drop_last(), name)
    }
}

/// No signal is listed twice.
pub open spec fn names_unique(marks: Seq<(Seq<char>, u64)>) -> bool {
    forall|i: int, j: int| 0 <= i < j < marks.len() ==> #[trigger] marks[i].0 != #[trigger] marks[j].0
}

pub open spec fn mark_views(v: Seq<(String, u64)>) -> Seq<(Seq<char>, u64)> {
    v.map_values(|x: (String, u64)| (x.0@, x.1))
}

/// The signal's level changed with the new levels (a signal not listed
/// before counts as low).
pub open spec fn level_changed(previous: Seq<(Seq<char>, u8)>, next: Seq<(Seq<char>, u8)>, name: Seq<char>) -> bool {
    match level_for(next, name) {
        Some(l) => l != match level_for(previous, name) {
            Some(p) => p,
            None => 0u8,
        },
        None => false,
    }
}

/// A signal's flash deadline after new levels at `now`: a fresh one when
/// its level changed, else the old one; kept while still ahead.
pub open spec fn refreshed_flash(
    marks: Seq<(Seq<char>, u64)>,
    previous: Seq<(Seq<char>, u8)>,
    next: Seq<(Seq<char>, u8)>,
    now: u64,
    name: Seq<char>,
) -> Option<u64> {
    if level_changed(previous, next, name) {
        Some((now + HOST_PIN_ACTIVITY_HOLD_MS) as u64)
    } else {
        match deadline_for(marks, name) {
            Some(d) => if d > now {
                Some(d)
            } else {
                None
            },
            None => None,
        }
    }
}

/// The levels of the controller's signals, by name, and until when each
/// signal that changed level flashes.
pub struct HostSignalActivity {
    pub levels: Vec<(String, u8)>,
    pub flash_until: Vec<(String, u64)>,
}

fn level_for_lookup(levels: &Vec<(String, u8)>, name: &str) -> (r: Option<u8>)
    ensures
        r == level_for(level_views(levels@), name@),
{
    let ghost lv = level_views(levels@);
    let mut i: usize = levels.len();
    assert(lv.take(i as int) =~= lv);
    while i > 0
        invariant
            lv == level_views(levels@),
            i <= lv.len(),
            level_for(lv, name@) == level_for(lv.take(i as int), name@),
        decreases i,
    {
        assert(lv.take(i as int).drop_last() =~= lv.take(i - 1));
        if str_eq(levels[i - 1].0.as_str(), name) {
            return Some(levels[i - 1].1);
        }
        i = i - 1;
    }
    None
}

fn deadline_for_lookup(marks: &Vec<(String, u64)>, name: &str) -> (r: Option<u64>)
    ensures
        r == deadline_for(mark_views(marks@), name@),
{
    let ghost mv = mark_views(marks@);
    let mut i: usize = marks.len();
    assert(mv.take(i as int) =~= mv);
    while i > 0
        invariant
            mv == mark_views(marks@),
            i <= mv.len(),
            deadline_for(mv, name@) == deadline_for(mv.take(i as int), name@),
        decreases i,
    {
        assert(mv.take(i as int).drop_last() =~= mv.take(i - 1));
        if str_eq(marks[i - 1].0.as_str(), name) {
            return Some(marks[i - 1].1);
        }
        i = i - 1;
    }
    None
}

proof fn lemma_deadline_for_unique(marks: Seq<(Seq<char>, u64)>, k: int)
    requires
        names_unique(marks),
        0 <= k < marks.len(),
    ensures
        deadline_for(marks, marks[k].0) == Some(marks[k].1),
    decreases marks.len(),
{
    if k < marks.len() - 1 {
        assert(marks[k].0 != marks[marks.len() - 1].0);
        assert(marks.drop_last()[k] == marks[k]);
        lemma_deadline_for_unique(marks.drop_last(), k);
    }
}

proof fn lemma_deadline_for_update_other(
    marks: Seq<(Seq<char>, u64)>,
    i: int,
    v: (Seq<char>, u64),
    other: Seq<char>,
)
    requires
        0 <= i < marks.len(),
        marks[i].0 == v.0,
        other != v.0,
    ensures
        deadline_for(marks.update(i, v), other) == deadline_for(marks, other),
    decreases marks.len(),
{
    let u = marks.update(i, v);
    if i == marks.len() - 1 {
        assert(u.drop_last() =~= marks.drop_last());
    } else {
        assert(u.last() == marks.last());
        assert(u.drop_last() =~= marks.drop_last().update(i, v));
        lemma_deadline_for_update_other(marks.drop_last(), i, v, other);
    }
}

proof fn lemma_deadline_for_absent(marks: Seq<(Seq<char>, u64)>, name: Seq<char>)
    requires
        forall|k: int| 0 <= k < marks.len() ==> #[trigger] marks[k].0 != name,
    ensures
        deadline_for(marks, name) is None,
    decreases marks.len(),
{
    if marks.len() > 0 {
        lemma_deadline_for_absent(marks.drop_last(), name);
    }
}

/// Sets the flash deadline of a signal, keeping each signal listed once.
fn set_flash(marks: &mut Vec<(String, u64)>, name: &str, deadline: u64)
    requires
        names_unique(mark_views(old(marks)@)),
    ensures
        names_unique(mark_views(final(marks)@)),
        deadline_for(mark_views(final(marks)@), name@) == Some(deadline),
        forall|other: Seq<char>| other != name@ ==> #[trigger] deadline_for(mark_views(final(marks)@), other)
            == deadline_for(mark_views(old(marks)@), other),
{
    let ghost before = mark_views(marks@);
    let mut i: usize = 0;
    while i < marks.len()
        invariant
            i <= marks@.len(),
            mark_views(marks@) == before,
            before == mark_views(old(marks)@),
            names_unique(before),
            forall|k: int| 0 <= k < i ==> #[trigger] before[k].0 != name@,
        decreases marks.len() - i,
    {
        if str_eq(marks[i].0.as_str(), name) {
            marks.set(i, (owned(name), deadline));
            proof {
                let after = mark_views(marks@);
                assert(after =~= before.update(i as int, (name@, deadline)));
                assert forall|a: int, b: int| 0 <= a < b < after.len() implies #[trigger] after[a].0
                    != #[trigger] after[b].0 by {
                    assert(before[a].0 != before[b].0);
                }
                lemma_deadline_for_unique(after, i as int);
                assert forall|other: Seq<char>| other != name@ implies #[trigger] deadline_for(after, other)
                    == deadline_for(before, other) by {
                    lemma_deadline_for_update_other(before, i as int, (name@, deadline), other);
                }
            }
            return;
        }
        i = i + 1;
    }
    marks.push((owned(name), deadline));
    proof {
        let after = mark_views(marks@);
        assert(after.drop_last() =~= before);
        assert(after.last() == (name@, deadline));
        assert forall|a: int, b: int| 0 <= a < b < after.len() implies #[trigger] after[a].0
            != #[trigger] after[b].0 by {
            if b < before.len() {
                assert(before[a].0 != before[b].0);
            } else {
                assert(after[a] == before[a]);
            }
        }
    }
}

/// The marks still ahead of `now`, in order.
pub open spec fn marks_ahead(marks: Seq<(Seq<char>, u64)>, now: u64) -> Seq<(Seq<char>, u64)>
    decreases marks.len(),
{
    if marks.len() == 0 {
        Seq::empty()
    } else {
        let rest = marks_ahead(marks.drop_last(), now);
        if marks.last().1 > now {
            rest.push(marks.last())
        } else {
            rest
        }
    }
}

proof fn lemma_marks_ahead(marks: Seq<(Seq<char>, u64)>, now: u64)
    requires
        names_unique(marks),
    ensures
        names_unique(marks_ahead(marks, now)),
        forall|k: int|
            #![trigger marks_ahead(marks, now)[k]]
            0 <= k < marks_ahead(marks, now).len() ==> exists|m: int|
                0 <= m < marks.len() && #[trigger] marks[m] == marks_ahead(marks, now)[k],
        forall|name: Seq<char>| #[trigger] deadline_for(marks_ahead(marks, now), name) == match deadline_for(
            marks,
            name,
        ) {
            Some(x) => if x > now {
                Some(x)
            } else {
                None
            },
            None => None,
        },
    decreases marks.len(),
{
    if marks.len() > 0 {
        let init = marks.drop_last();
        let m = marks.last();
        assert(names_unique(init)) by {
            assert forall|i: int, j: int| 0 <= i < j < init.len() implies #[trigger] init[i].0
                != #[trigger] init[j].0 by {
                assert(marks[i].0 != marks[j].0);
            }
        }
        lemma_marks_ahead(init, now);
        let rest = marks_ahead(init, now);
        assert forall|k: int| 0 <= k < rest.len() implies #[trigger] rest[k].0 != m.0 by {
            let i = choose|i: int| 0 <= i < init.len() && #[trigger] init[i] == rest[k];
            assert(marks[i].0 != marks[marks.len() - 1].0);
        }
        assert forall|k: int| 0 <= k < init.len() implies #[trigger] init[k].0 != m.0 by {
            assert(marks[k].0 != marks[marks.len() - 1].0);
        }
        lemma_deadline_for_absent(init, m.0);
        assert forall|name: Seq<char>| #[trigger] deadline_for(marks_ahead(marks, now), name) == match deadline_for(
            marks,
            name,
        ) {
            Some(x) => if x > now {
                Some(x)
            } else {
                None
            },
            None => None,
        } by {
            if m.1 > now {
                assert(marks_ahead(marks, now) == rest.push(m));
                assert(rest.push(m).drop_last() =~= rest);
            } else {
                assert(marks_ahead(marks, now) == rest);
                lemma_deadline_for_absent(rest, m.0);
            }
            assert(deadline_for(rest, name) == match deadline_for(init, name) {
                Some(x) => if x > now {
                    Some(x)
                } else {
                    None
                },
                None => None,
            });
        }
        if m.1 > now {
            let r = rest.push(m);
            assert(r.drop_last() =~= rest);
            assert forall|i: int, j: int| 0 <= i < j < r.len() implies #[trigger] r[i].0
                != #[trigger] r[j].0 by {
                if j == rest.len() {
                    assert(rest[i].0 != m.0);
                } else {
                    assert(rest[i].0 != rest[j].0);
                }
            }
            assert forall|k: int|
                #![trigger r[k]]
                0 <= k < r.len() implies exists|mm: int| 0 <= mm < marks.len() && #[trigger] marks[mm] == r[k] by {
                if k < rest.len() {
                    let i = choose|i: int| 0 <= i < init.len() && #[trigger] init[i] == rest[k];
                    assert(marks[i] == r[k]);
                } else {
                    assert(marks[marks.len() - 1] == r[k]);
                }
            }
        } else {
            lemma_deadline_for_absent(rest, m.0);
            assert forall|k: int|
                #![trigger rest[k]]
                0 <= k < rest.len() implies exists|mm: int| 0 <= mm < marks.len() && #[trigger] marks[mm] == rest[k] by {
                let i = choose|i: int| 0 <= i < init.len() && #[trigger] init[i] == rest[k];
                assert(marks[i] == rest[k]);
            }
        }
    }
}

fn keep_marks_ahead(marks: &Vec<(String, u64)>, now_ms: u64) -> (r: Vec<(String, u64)>)
    ensures
        mark_views(r@) == marks_ahead(mark_views(marks@), now_ms),
{
    let ghost mv = mark_views(marks@);
    let mut kept: Vec<(String, u64)> = Vec::new();
    let mut j: usize = 0;
    while j < marks.len()
        invariant
            mv == mark_views(marks@),
            j <= mv.len(),
            mark_views(kept@) == marks_ahead(mv.take(j as int), now_ms),
        decreases marks.len() - j,
    {
        assert(mv.take(j + 1).drop_last() =~= mv.take(j as int));
        assert(mv.take(j + 1).last() == mv[j as int]);
        let ghost before = mark_views(kept@);
        if marks[j].1 > now_ms {
            kept.push((marks[j].0.clone(), marks[j].1));
            assert(mark_views(kept@) =~= before.push(mv[j as int]));
        }
        j = j + 1;
    }
    assert(mv.take(mv.len() as int) =~= mv);
    kept
}

impl HostSignalActivity {
    /// Each signal has at most one flash deadline.
    pub open spec fn wf(&self) -> bool {
        names_unique(mark_views(self.flash_until@))
    }

    /// No levels known and nothing flashing.
    pub fn new() -> (r: Self)
        ensures
            r.wf(),
            r.levels@.len() == 0,
            r.flash_until@.len() == 0,
    {
        HostSignalActivity { levels: Vec::new(), flash_until: Vec::new() }
    }

    /// Takes in the levels of a new snapshot at time `now_ms`: each signal
    /// whose level changed flashes for `HOST_PIN_ACTIVITY_HOLD_MS`, flashes
    /// that ran out are forgotten, and the levels are kept.
    pub fn update(&mut self, snapshot: &SimulationSnapshot, now_ms: u64)
        requires
            old(self).wf(),
            now_ms + HOST_PIN_ACTIVITY_HOLD_MS <= u64::MAX,
        ensures
            final(self).wf(),
            level_views(final(self).levels@) == spec_signal_levels(snapshot.board, snapshot.host_pin_levels@),
            forall|name: Seq<char>| #[trigger] deadline_for(mark_views(final(self).flash_until@), name)
                == refreshed_flash(
                    mark_views(old(self).flash_until@),
                    level_views(old(self).levels@),
                    level_views(final(self).levels@),
                    now_ms,
                    name,
                ),
    {
        let next = host_signal_levels_for_snapshot(snapshot);
        let ghost nv = level_views(next@);
        let ghost pv = level_views(self.levels@);
        let ghost marks0 = mark_views(self.flash_until@);
        let hold_until = now_ms + HOST_PIN_ACTIVITY_HOLD_MS;
        let mut marks: Vec<(String, u64)> = Vec::new();
        std::mem::swap(&mut marks, &mut self.flash_until);
        let mut i: usize = 0;
        while i < next.len()
            invariant
                nv == level_views(next@),
                pv == level_views(self.levels@),
                i <= nv.len(),
                names_unique(mark_views(marks@)),
                hold_until == now_ms + HOST_PIN_ACTIVITY_HOLD_MS,
                forall|name: Seq<char>| #[trigger] deadline_for(mark_views(marks@), name) == if (exists|k: int|
                    0 <= k < i && #[trigger] nv[k].0 == name) && level_changed(pv, nv, name) {
                    Some(hold_until)
                } else {
                    deadline_for(marks0, name)
                },
            decreases next.len() - i,
        {
            let name = next[i].0.as_str();
            let previous = match level_for_lookup(&self.levels, name) {
                Some(level) => level,
                None => 0u8,
            };
            let current = level_for_lookup(&next, name);
            let ghost before = mark_views(marks@);
            proof {
                assert(nv[i as int].0 == name@);
                lemma_level_for_listed(nv, i as int);
            }
            let changed = match current {
                Some(level) => level != previous,
                None => false,
            };
            if changed {
                set_flash(&mut marks, name, hold_until);
            }
            proof {
                assert forall|n: Seq<char>| #[trigger] deadline_for(mark_views(marks@), n) == if (exists|k: int|
                    0 <= k < i + 1 && #[trigger] nv[k].0 == n) && level_changed(pv, nv, n) {
                    Some(hold_until)
                } else {
                    deadline_for(marks0, n)
                } by {
                    if n == name@ {
                        assert(nv[i as int].0 == n);
                    } else if exists|k: int| 0 <= k < i + 1 && #[trigger] nv[k].0 == n {
                        let k = choose|k: int| 0 <= k < i + 1 && #[trigger] nv[k].0 == n;
                        assert(k < i);
                    }
                }
            }
            i = i + 1;
        }
        let kept = keep_marks_ahead(&marks, now_ms);
        proof {
            lemma_marks_ahead(mark_views(marks@), now_ms);
            assert forall|name: Seq<char>| #[trigger] deadline_for(mark_views(kept@), name)
                == refreshed_flash(marks0, pv, nv, now_ms, name) by {
                if level_changed(pv, nv, name) {
                    lemma_level_for_some(nv, name);
                }
            }
        }
        self.flash_until = kept;
        self.levels = next;
    }

    /// How `signal` looks at `now_ms`: high when its level is not zero,
    /// flashing while its deadline is ahead.
    pub fn activity(&self, signal: &str, now_ms: u64) -> (r: SignalActivity)
        ensures
            r.is_high == (match level_for(level_views(self.levels@), signal@) {
                Some(l) => l != 0,
                None => false,
            }),
            r.is_flashing == (match deadline_for(mark_views(self.flash_until@), signal@) {
                Some(d) => d > now_ms,
                None => false,
            }),
    {
        let is_high = match level_for_lookup(&self.levels, signal) {
            Some(level) => level != 0,
            None => false,
        };
        let is_flashing = match deadline_for_lookup(&self.flash_until, signal) {
            Some(deadline) => deadline > now_ms,
            None => false,
        };
        SignalActivity { is_high, is_flashing }
    }

    /// A word for the state of a controller signal at `now_ms`.
    pub fn status_text(&self, signal: &str, now_ms: u64) -> (r: String)
        ensures
            r@ == spec_status_text(
                signal@,
                level_for(level_views(self.levels@), signal@),
                match deadline_for(mark_views(self.flash_until@), signal@) {
                    Some(d) => d > now_ms,
                    None => false,
                },
            ),
    {
        if str_eq(signal, "GND") {
            return owned("ground");
        }
        if str_eq(signal, "+5V") || str_eq(signal, "+3V3") || str_eq(signal, "VIN") || str_eq(
            signal,
            "IOREF",
        ) || str_eq(signal, "AREF") {
            return owned("power rail");
        }
        let activity = self.activity(signal, now_ms);
        if activity.is_flashing {
            owned("activity pulse")
        } else if activity.is_high {
            owned("high")
        } else if level_for_lookup(&self.levels, signal).is_some() {
            owned("low")
        } else {
            owned("unresolved")
        }
    }

    /// Whether `signal` is high or flashing at `now_ms`.
    pub open spec fn spec_is_active(&self, signal: Seq<char>, now_ms: u64) -> bool {
        (match level_for(level_views(self.levels@), signal) {
            Some(l) => l != 0,
            None => false,
        }) || (match deadline_for(mark_views(self.flash_until@), signal) {
            Some(d) => d > now_ms,
            None => false,
        })
    }

    fn is_active(&self, signal: &str, now_ms: u64) -> (r: bool)
        ensures
            r == self.spec_is_active(signal@, now_ms),
    {
        let activity = self.activity(signal, now_ms);
        activity.is_high || activity.is_flashing
    }

    /// The nets bound to the signals active at `now_ms`, in order.
    pub open spec fn active_binding_nets(&self, bindings: Seq<SignalBinding>, now_ms: u64) -> Seq<Seq<char>>
        decreases bindings.len(),
    {
        if bindings.len() == 0 {
            Seq::empty()
        } else {
            let rest = self.active_binding_nets(bindings.drop_last(), now_ms);
            if self.spec_is_active(bindings.last().board_signal@, now_ms) {
                rest.push(bindings.last().pcb_net@)
            } else {
                rest
            }
        }
    }

    /// The PCB nets to highlight at `now_ms`: those bound to an active
    /// signal, as a sorted set.
    pub fn active_highlight_nets(&self, bindings: &[SignalBinding], now_ms: u64) -> (r: Vec<String>)
        ensures
            views(r@) == name_set(self.active_binding_nets(bindings@, now_ms)),
    {
        let mut set: Vec<String> = Vec::new();
        let mut i: usize = 0;
        while i < bindings.len()
            invariant
                i <= bindings@.len(),
                views(set@) == name_set(self.active_binding_nets(bindings@.take(i as int), now_ms)),
            decreases bindings.len() - i,
        {
            assert(bindings@.take(i + 1).drop_last() =~= bindings@.take(i as int));
            assert(bindings@.take(i + 1).last() == bindings@[i as int]);
            if self.is_active(bindings[i].board_signal.as_str(), now_ms) {
                let ghost prefix = self.active_binding_nets(bindings@.take(i as int), now_ms);
                insert_name(&mut set, bindings[i].pcb_net.as_str());
                assert(prefix.push(bindings@[i as int].pcb_net@).drop_last() =~= prefix);
            }
            i = i + 1;
        }
        assert(bindings@.take(bindings@.len() as int) =~= bindings@);
        set
    }

    /// The preview nets of the board's active signals at `now_ms`, in order.
    pub open spec fn active_preview_list(
        &self,
        board: HostBoard,
        signals: Seq<Seq<char>>,
        nets: Seq<Seq<char>>,
        now_ms: u64,
    ) -> Seq<Seq<char>>
        decreases signals.len(),
    {
        if signals.len() == 0 {
            Seq::empty()
        } else {
            let rest = self.active_preview_list(board, signals.drop_last(), nets, now_ms);
            if self.spec_is_active(signals.last(), now_ms) {
                rest + spec_preview_net_aliases(board, signals.last(), nets)
            } else {
                rest
            }
        }
    }

    /// The preview nets to light up on a host-board preview at `now_ms`:
    /// those the board's active signals (of `host_signals`) name among
    /// `preview_nets`, as a sorted set.
    pub fn active_host_preview_nets(
        &self,
        board: HostBoard,
        host_signals: &[String],
        preview_nets: &[String],
        now_ms: u64,
    ) -> (r: Vec<String>)
        ensures
            views(r@) == name_set(
                self.active_preview_list(board, views(host_signals@), views(preview_nets@), now_ms),
            ),
    {
        let ghost sig = views(host_signals@);
        let ghost nv = views(preview_nets@);
        let mut set: Vec<String> = Vec::new();
        let mut i: usize = 0;
        while i < host_signals.len()
            invariant
                sig == views(host_signals@),
                nv == views(preview_nets@),
                i <= sig.len(),
                views(set@) == name_set(self.active_preview_list(board, sig.take(i as int), nv, now_ms)),
            decreases host_signals.len() - i,
        {
            assert(sig.take(i + 1).drop_last() =~= sig.take(i as int));
            assert(sig.take(i + 1).last() == host_signals@[i as int]@);
            let signal = host_signals[i].as_str();
            if self.is_active(signal, now_ms) {
                let ghost prefix = self.active_preview_list(board, sig.take(i as int), nv, now_ms);
                let aliases = preview_net_aliases(board, signal, preview_nets);
                let ghost av = views(aliases@);
                let mut j: usize = 0;
                while j < aliases.len()
                    invariant
                        av == views(aliases@),
                        j <= av.len(),
                        views(set@) == name_set(prefix + av.take(j as int)),
                    decreases aliases.len() - j,
                {
                    assert((prefix + av.take(j + 1)).drop_last() =~= prefix + av.take(j as int));
                    assert((prefix + av.take(j + 1)).last() == aliases@[j as int]@);
                    insert_name(&mut set, aliases[j].as_str());
                    j = j + 1;
                }
                assert(av.take(av.len() as int) =~= av);
            }
            i = i + 1;
        }
        assert(sig.take(sig.len() as int) =~= sig);
        set
    }
}

/// The status word of a controller signal: ground and power rails by name,
/// else by its activity and level.
pub open spec fn spec_status_text(signal: Seq<char>, level: Option<u8>, flashing: bool) -> Seq<char> {
    if signal == "GND"@ {
        "ground"@
    } else if signal == "+5V"@ || signal == "+3V3"@ || signal == "VIN"@ || signal == "IOREF"@ || signal
        == "AREF"@ {
        "power rail"@
    } else if flashing {
        "activity pulse"@
    } else if level matches Some(l) && l != 0 {
        "high"@
    } else if level is Some {
        "low"@
    } else {
        "unresolved"@
    }
}

proof fn lemma_level_for_listed(levels: Seq<(Seq<char>, u8)>, k: int)
    requires
        0 <= k < levels.len(),
    ensures
        level_for(levels, levels[k].0) is Some,
    decreases levels.len(),
{
    if levels.last().0 != levels[k].0 {
        assert(k < levels.len() - 1);
        assert(levels.drop_last()[k] == levels[k]);
        lemma_level_for_listed(levels.drop_last(), k);
    }
}

proof fn lemma_level_for_some(levels: Seq<(Seq<char>, u8)>, name: Seq<char>)
    requires
        level_for(levels, name) is Some,
    ensures
        exists|k: int| 0 <= k < levels.len() && #[trigger] levels[k].0 == name,
    decreases levels.len(),
{
    if levels.last().0 == name {
        assert(levels[levels.len() - 1].0 == name);
    } else {
        lemma_level_for_some(levels.drop_last(), name);
        let k = choose|k: int| 0 <= k < levels.drop_last().len() && #[trigger] levels.drop_last()[k].0 == name;
        assert(levels[k].0 == name);
    }
}

// ---------------------------------------------------------------------------
// The project the window describes
// ---------------------------------------------------------------------------

/// What the window holds of the project being edited.
pub struct ProjectForm {
    pub source_path: String,
    pub pcb_path: String,
    pub project_name: String,
    pub project_description: String,
    pub selected_board: HostBoard,
    /// The HEX image the last compile of the sketch produced.
    pub compiled_hex_path: Option<String>,
    pub module_overlays: Vec<ModuleOverlay>,
    pub bindings: Vec<SignalBinding>,
    pub probes: Vec<ProbeSpec>,
    pub stimuli: Vec<StimulusSpec>,
}

/// The firmware kind a source file gives, if any.
pub open spec fn form_firmware_kind(source: Seq<char>, is_dir: bool) -> Option<FirmwareSourceKind> {
    match spec_classify_source(source, is_dir) {
        SourceAction::Compile => Some(FirmwareSourceKind::Ino),
        SourceAction::LoadHex => Some(FirmwareSourceKind::Hex),
        SourceAction::NoAction => None,
    }
}

/// `p` is the project the form describes, before validation.
pub open spec fn drafted_project(form: ProjectForm, source_is_dir: bool, p: SimulationProject) -> bool {
    let source = spec_trim(form.source_path@);
    let pcb = spec_trim(form.pcb_path@);
    let kind = form_firmware_kind(source, source_is_dir).unwrap();
    &&& p.format_version@ == PROJECT_FORMAT_VERSION@
    &&& p.name@ == if spec_trim(form.project_name@).len() == 0 {
        spec_default_project_name(source, pcb)
    } else {
        spec_trim(form.project_name@)
    }
    &&& opt_view(p.description) == if spec_trim(form.project_description@).len() == 0 {
        None
    } else {
        Some(spec_trim(form.project_description@))
    }
    &&& p.host_board == form.selected_board
    &&& p.firmware.kind == kind
    &&& p.firmware.path@ == source
    &&& opt_view(p.firmware.compiled_hex_path) == if kind == FirmwareSourceKind::Ino {
        opt_view(form.compiled_hex_path)
    } else {
        None
    }
    &&& p.pcb.path@ == pcb
    &&& opt_view(p.pcb.board_name_hint) == spec_file_stem(pcb)
    &&& p.root_assembly is None
    &&& p.module_overlays == form.module_overlays
    &&& p.bindings == form.bindings
    &&& p.probes == form.probes
    &&& p.stimuli == form.stimuli
}

/// The project the window describes, validated against the host board's
/// signals (`host_signals`, when its model could be loaded) and the known
/// module models. The sketch or HEX image (`source_is_dir` when the source
/// path is a sketch directory) and the PCB must be chosen first.
pub fn build_project(
    form: ProjectForm,
    source_is_dir: bool,
    host_signals: Option<&Vec<String>>,
    module_models: &[String],
) -> (r: Result<SimulationProject, String>)
    ensures
        ({
            let source = spec_trim(form.source_path@);
            let pcb = spec_trim(form.pcb_path@);
            &&& form_firmware_kind(source, source_is_dir) is None ==> (r matches Err(m) && m@
                == "Select a valid .ino sketch or .hex image first."@)
            &&& form_firmware_kind(source, source_is_dir) is Some && pcb.len() == 0 ==> (r matches Err(m)
                && m@ == "Select a valid .kicad_pcb file first."@)
            &&& form_firmware_kind(source, source_is_dir) is Some && pcb.len() > 0 ==> exists|d: SimulationProject|
                #[trigger] drafted_project(form, source_is_dir, d) && match r {
                    Ok(p) => p == d && project_check(d, signal_views(host_signals), views(module_models@))
                        is Ok,
                    Err(m) => project_check(d, signal_views(host_signals), views(module_models@)) matches Err(
                        e,
                    ) && m@ == spec_error_message(e),
                }
        }),
{
    let source = string_of(&trim(&chars_of(form.source_path.as_str())));
    let pcb_path = string_of(&trim(&chars_of(form.pcb_path.as_str())));
    let kind = match classify_source(source.as_str(), source_is_dir) {
        SourceAction::Compile => FirmwareSourceKind::Ino,
        SourceAction::LoadHex => FirmwareSourceKind::Hex,
        SourceAction::NoAction => {
            return Err(owned("Select a valid .ino sketch or .hex image first."));
        },
    };
    let name_trimmed = trim(&chars_of(form.project_name.as_str()));
    let project_name = if name_trimmed.len() == 0 {
        default_project_name(source.as_str(), pcb_path.as_str())
    } else {
        string_of(&name_trimmed)
    };
    if pcb_path.unicode_len() == 0 {
        return Err(owned("Select a valid .kicad_pcb file first."));
    }
    let ProjectForm {
        source_path: _,
        pcb_path: _,
        project_name: _,
        project_description,
        selected_board,
        compiled_hex_path,
        module_overlays,
        bindings,
        probes,
        stimuli,
    } = form;
    let compiled = match kind {
        FirmwareSourceKind::Ino => compiled_hex_path,
        FirmwareSourceKind::Hex => None,
    };
    let hint = match file_name(pcb_path.as_str()) {
        Some(name) => Some(string_of(&stem_of(&name))),
        None => None,
    };
    let firmware = FirmwareSource { kind, path: source, compiled_hex_path: compiled };
    let pcb = PcbSource { path: pcb_path, board_name_hint: hint };
    let mut project = SimulationProject::new(project_name.as_str(), selected_board, firmware, pcb);
    let description = trim(&chars_of(project_description.as_str()));
    if description.len() > 0 {
        project.description = Some(string_of(&description));
    }
    project.module_overlays = module_overlays;
    project.bindings = bindings;
    project.probes = probes;
    project.stimuli = stimuli;
    assert(drafted_project(form, source_is_dir, project));
    match project.validate(host_signals, module_models) {
        Ok(()) => Ok(project),
        Err(error) => Err(error.message()),
    }
}


// ---------------------------------------------------------------------------
// Choosing a net for one controller signal
// ---------------------------------------------------------------------------

/// The window's bindings after choosing `selected` as the net of `signal`:
/// a blank choice unbinds the signal; any other choice binds it to that net,
/// keeping the mode it had (else the mode its name implies) and its note
/// only when the net stays the same.
pub open spec fn spec_choose_net(map: Seq<BindingView>, signal: Seq<char>, selected: Seq<char>) -> Seq<
    BindingView,
> {
    let k = index_of_signal(map, signal, 0);
    if spec_trim(selected).len() == 0 {
        if k >= 0 {
            map.remove(k)
        } else {
            map
        }
    } else {
        let mode = if k >= 0 {
            map[k].2
        } else {
            spec_infer_binding_mode(signal)
        };
        let note = if k >= 0 && map[k].1 == selected {
            map[k].3
        } else {
            None
        };
        put_binding(map, (signal, selected, mode, note))
    }
}

/// Choosing a net keeps each signal listed once; a blank choice leaves the
/// signal unbound, and any other choice binds it to the chosen net.
pub proof fn law_choose_net(map: Seq<BindingView>, signal: Seq<char>, selected: Seq<char>)
    requires
        signals_unique(map),
    ensures
        signals_unique(spec_choose_net(map, signal, selected)),
        spec_trim(selected).len() == 0 ==> forall|k: int|
            0 <= k < spec_choose_net(map, signal, selected).len() ==> #[trigger] spec_choose_net(
                map,
                signal,
                selected,
            )[k].0 != signal,
        spec_trim(selected).len() > 0 ==> exists|k: int|
            0 <= k < spec_choose_net(map, signal, selected).len() && #[trigger] spec_choose_net(
                map,
                signal,
                selected,
            )[k].0 == signal && spec_choose_net(map, signal, selected)[k].1 == selected,
{
    lemma_index_of_signal(map, signal, 0);
    let k = index_of_signal(map, signal, 0);
    let r = spec_choose_net(map, signal, selected);
    if spec_trim(selected).len() == 0 {
        if k >= 0 {
            assert forall|i: int, j: int| 0 <= i < j < r.len() implies #[trigger] r[i].0 != #[trigger] r[j].0 by {
                let a = if i < k { i } else { i + 1 };
                let b = if j < k { j } else { j + 1 };
                assert(r[i] == map[a] && r[j] == map[b]);
            }
            assert forall|m: int| 0 <= m < r.len() implies #[trigger] r[m].0 != signal by {
                let a = if m < k { m } else { m + 1 };
                assert(r[m] == map[a]);
            }
        }
    } else {
        let mode = if k >= 0 {
            map[k].2
        } else {
            spec_infer_binding_mode(signal)
        };
        let note = if k >= 0 && map[k].1 == selected {
            map[k].3
        } else {
            None
        };
        let x = (signal, selected, mode, note);
        lemma_put_binding_unique(map, x);
        if k >= 0 {
            assert(r[k] == x);
        } else {
            crate::project::autobind::lemma_signal_position_bounds(map, x, 0);
            let p = crate::project::autobind::signal_position(map, x, 0);
            assert(r[p] == x);
        }
    }
}

/// Sets the net of `signal` in the bindings kept by signal name, as the
/// controller binding matrix does when a net is picked for a signal.
pub fn choose_controller_net(bindings: &mut Vec<SignalBinding>, signal: &str, selected_net: &str)
    ensures
        bviews(final(bindings)@) == spec_choose_net(bviews(old(bindings)@), signal@, selected_net@),
{
    let ghost before = bviews(bindings@);
    let mut k: usize = 0;
    let mut found = false;
    while k < bindings.len() && !found
        invariant
            before == bviews(bindings@),
            bindings@ == old(bindings)@,
            k <= before.len(),
            found ==> k < before.len() && before[k as int].0 == signal@,
            !found ==> index_of_signal(before, signal@, 0) == index_of_signal(before, signal@, k as int),
            found ==> index_of_signal(before, signal@, 0) == k,
        decreases bindings.len() - k + (if found { 0int } else { 1int }),
    {
        if str_eq(bindings[k].board_signal.as_str(), signal) {
            found = true;
        } else {
            k = k + 1;
        }
    }
    proof {
        if !found {
            assert(index_of_signal(before, signal@, k as int) == -1);
        }
    }
    let blank = trim(&chars_of(selected_net)).len() == 0;
    if blank {
        if found {
            bindings.remove(k);
            assert(bviews(bindings@) =~= before.remove(k as int));
        }
        return;
    }
    let mode = if found {
        bindings[k].mode
    } else {
        infer_binding_mode(signal)
    };
    let note = if found && str_eq(bindings[k].pcb_net.as_str(), selected_net) {
        match &bindings[k].note {
            Some(n) => Some(n.clone()),
            None => None,
        }
    } else {
        None
    };
    let item = SignalBinding { board_signal: owned(signal), pcb_net: owned(selected_net), mode, note };
    put_binding_into(bindings, item);
}

} // verus!

//! Helpers of the main window: which board is shown, what a source file
//! is, names, labels, pin aliases, module wiring suggestions and host pin
//! levels by signal name.

use vstd::prelude::*;
use crate::gui::simulation::SimulationSnapshot;
use crate::mcu::common::{BoardPin, BoardPinLevel};
use crate::project::autobind::{
    analog_channel_alias, controller_port_aliases, controller_signal_aliases, spec_analog_channel_alias,
    spec_controller_signal_aliases, spec_nano_board_label, spec_port_aliases, spec_suggest_pcb_nets,
    suggest_pcb_nets, sviews, NetSuggestion, push_unique,
};
use crate::project::paths::{extension_of, file_name, spec_extension};
use crate::project::shared::{overlay_names, BindingMode, HostBoard, ModuleOverlay};
use crate::gui::board_editor::first_free_name;
use crate::text::{
    first_free_number,
    chars_of, concat2, contains_str, is, is_alnum, lower, owned, spec_is_alnum, spec_is_blank,
    spec_lower_seq, spec_starts_with, spec_trim, spec_upper_seq, str_eq, str_starts_with,
    string_of, trim, upper, views, decimal, spec_decimal, strip_suffix, spec_strip_suffix,
    spec_ends_with,
};

verus! {

// ---------------------------------------------------------------------------
// Target board and source files
// ---------------------------------------------------------------------------

/// The board the window shows: the running firmware's once one is loaded,
/// else the one selected.
pub fn displayed_host_board(selected_board: HostBoard, snapshot: &SimulationSnapshot) -> (r: HostBoard)
    ensures
        r == (if snapshot.firmware_path is Some {
            snapshot.board
        } else {
            selected_board
        }),
{
    if snapshot.firmware_path.is_some() {
        snapshot.board
    } else {
        selected_board
    }
}

/// Whether loaded firmware runs on a board other than the one selected.
pub fn target_runtime_board_mismatch(selected_board: HostBoard, snapshot: &SimulationSnapshot) -> (r:
    bool)
    ensures
        r == (snapshot.firmware_path is Some && snapshot.board != selected_board),
{
    snapshot.firmware_path.is_some() && snapshot.board != selected_board
}

/// What the window can do with a source path.
#[derive(Debug, Clone, Copy, PartialEq, Eq, Structural)]
pub enum SourceAction {
    Compile,
    LoadHex,
    NoAction,
}

/// A directory or `.ino` file compiles, a `.hex` file loads (extensions in
/// any case), anything else does nothing.
pub open spec fn spec_classify_source(path: Seq<char>, is_dir: bool) -> SourceAction {
    let t = spec_trim(path);
    if t.len() == 0 {
        SourceAction::NoAction
    } else if is_dir {
        SourceAction::Compile
    } else {
        match spec_extension(t) {
            Some(e) => if spec_lower_seq(e) == "ino"@ {
                SourceAction::Compile
            } else if spec_lower_seq(e) == "hex"@ {
                SourceAction::LoadHex
            } else {
                SourceAction::NoAction
            },
            None => SourceAction::NoAction,
        }
    }
}

/// `is_dir` tells whether the trimmed path is a directory on disk.
pub fn classify_source(path: &str, is_dir: bool) -> (r: SourceAction)
    ensures
        r == spec_classify_source(path@, is_dir),
{
    let raw = chars_of(path);
    let t = trim(&raw);
    if t.len() == 0 {
        return SourceAction::NoAction;
    }
    if is_dir {
        return SourceAction::Compile;
    }
    let text = string_of(&t);
    let ext = match file_name(text.as_str()) {
        Some(name) => extension_of(&name),
        None => None,
    };
    match ext {
        Some(e) => {
            let l = lower(&e);
            if is(&l, "ino") {
                SourceAction::Compile
            } else if is(&l, "hex") {
                SourceAction::LoadHex
            } else {
                SourceAction::NoAction
            }
        },
        None => SourceAction::NoAction,
    }
}

/// The target can change without reloading a PCB when none is loaded,
/// firmware is running, and the source can be compiled or loaded again.
pub fn can_hot_swap_target_without_pcb(
    has_loaded_pcb: bool,
    source_path: &str,
    source_is_dir: bool,
    snapshot: &SimulationSnapshot,
) -> (r: bool)
    ensures
        r == (!has_loaded_pcb && snapshot.firmware_path is Some && spec_classify_source(
            source_path@,
            source_is_dir,
        ) != SourceAction::NoAction),
{
    !has_loaded_pcb && snapshot.firmware_path.is_some() && classify_source(
        source_path,
        source_is_dir,
    ) != SourceAction::NoAction
}

// ---------------------------------------------------------------------------
// Text shown in the window
// ---------------------------------------------------------------------------

pub open spec fn bit_char(value: u8, bit: u8) -> char {
    if (value >> bit) & 1 == 1 {
        '1'
    } else {
        '0'
    }
}

/// The status register as flag letters with their bit values.
pub open spec fn spec_format_sreg(sreg: u8) -> Seq<char> {
    seq![
        'I', bit_char(sreg, 7), ' ', 'T', bit_char(sreg, 6), ' ', 'H', bit_char(sreg, 5), ' ',
        'S', bit_char(sreg, 4), ' ', 'V', bit_char(sreg, 3), ' ', 'N', bit_char(sreg, 2), ' ',
        'Z', bit_char(sreg, 1), ' ', 'C', bit_char(sreg, 0),
    ]
}

fn bit_digit(value: u8, bit: u8) -> (r: char)
    requires
        bit < 8,
    ensures
        r == bit_char(value, bit),
{
    if (value >> bit) & 1 == 1 {
        '1'
    } else {
        '0'
    }
}

pub fn format_sreg(sreg: u8) -> (r: String)
    ensures
        r@ == spec_format_sreg(sreg),
{
    let names = ['I', 'T', 'H', 'S', 'V', 'N', 'Z', 'C'];
    let mut out: Vec<char> = Vec::new();
    out.push('I');
    out.push(bit_digit(sreg, 7));
    out.push(' ');
    out.push('T');
    out.push(bit_digit(sreg, 6));
    out.push(' ');
    out.push('H');
    out.push(bit_digit(sreg, 5));
    out.push(' ');
    out.push('S');
    out.push(bit_digit(sreg, 4));
    out.push(' ');
    out.push('V');
    out.push(bit_digit(sreg, 3));
    out.push(' ');
    out.push('N');
    out.push(bit_digit(sreg, 2));
    out.push(' ');
    out.push('Z');
    out.push(bit_digit(sreg, 1));
    out.push(' ');
    out.push('C');
    out.push(bit_digit(sreg, 0));
    assert(out@ =~= spec_format_sreg(sreg));
    string_of(&out)
}

/// Each character that is not an ASCII letter, digit, `-` or `_` as `-`.
pub open spec fn dash_invalid(s: Seq<char>) -> Seq<char> {
    s.map_values(|c: char| if spec_is_alnum(c) || c == '-' || c == '_' { c } else { '-' })
}

pub open spec fn all_dashes(s: Seq<char>) -> bool {
    forall|i: int| 0 <= i < s.len() ==> s[i] == '-'
}

/// A project name usable as a file name; `simulation-project` when nothing
/// but dashes would remain.
pub open spec fn spec_sanitize_project_name(name: Seq<char>) -> Seq<char> {
    if all_dashes(dash_invalid(name)) {
        "simulation-project"@
    } else {
        dash_invalid(name)
    }
}

pub fn sanitize_project_name(name: &str) -> (r: String)
    ensures
        r@ == spec_sanitize_project_name(name@),
{
    let out = crate::gui::arduino::dash_invalid_chars(name);
    assert(out@ =~= dash_invalid(name@));
    let mut i: usize = 0;
    while i < out.len()
        invariant
            out@ == dash_invalid(name@),
            i <= out@.len(),
            forall|k: int| 0 <= k < i ==> out@[k] == '-',
        decreases out.len() - i,
    {
        if out[i] != '-' {
            assert(!all_dashes(dash_invalid(name@))) by {
                assert(dash_invalid(name@)[i as int] != '-');
            }
            return string_of(&out);
        }
        i = i + 1;
    }
    owned("simulation-project")
}

/// The serial speeds offered, ascending.
pub fn common_baud_rates() -> (r: Vec<u32>)
    ensures
        r@ == seq![300u32, 1200, 2400, 4800, 9600, 19200, 38400, 57600, 115200, 230400],
{
    let r: Vec<u32> = vec![300, 1200, 2400, 4800, 9600, 19200, 38400, 57600, 115200, 230400];
    r
}

pub open spec fn spec_binding_mode_label(mode: BindingMode) -> Seq<char> {
    match mode {
        BindingMode::Auto => "auto"@,
        BindingMode::Digital => "digital"@,
        BindingMode::Analog => "analog"@,
        BindingMode::Power => "power"@,
        BindingMode::Bus => "bus"@,
    }
}

pub fn binding_mode_label(mode: BindingMode) -> (r: &'static str)
    ensures
        r@ == spec_binding_mode_label(mode),
{
    match mode {
        BindingMode::Auto => "auto",
        BindingMode::Digital => "digital",
        BindingMode::Analog => "analog",
        BindingMode::Power => "power",
        BindingMode::Bus => "bus",
    }
}

// ---------------------------------------------------------------------------
// Controller signal names on board previews
// ---------------------------------------------------------------------------

/// The signal and its aliases that name nets of the preview, each once.
pub open spec fn present_aliases(
    acc: Seq<Seq<char>>,
    xs: Seq<Seq<char>>,
    nets: Seq<Seq<char>>,
) -> Seq<Seq<char>>
    decreases xs.len(),
{
    if xs.len() == 0 {
        acc
    } else {
        let rest = present_aliases(acc, xs.drop_last(), nets);
        if nets.contains(xs.last()) && !rest.contains(xs.last()) {
            rest.push(xs.last())
        } else {
            rest
        }
    }
}

/// The preview nets a controller signal may light up: the signal and its
/// aliases that the preview has, or the signal alone when it has none.
pub open spec fn spec_preview_net_aliases(board: HostBoard, signal: Seq<char>, nets: Seq<Seq<char>>) -> Seq<
    Seq<char>,
> {
    let found = present_aliases(
        Seq::empty(),
        seq![signal] + spec_controller_signal_aliases(board, signal),
        nets,
    );
    if found.len() == 0 {
        seq![signal]
    } else {
        found
    }
}

pub fn preview_net_aliases(board: HostBoard, signal: &str, preview_nets: &[String]) -> (r: Vec<
    String,
>)
    ensures
        views(r@) == spec_preview_net_aliases(board, signal@, views(preview_nets@)),
{
    let mut all: Vec<String> = Vec::new();
    all.push(owned(signal));
    let mut aliases = controller_signal_aliases(board, signal);
    let ghost first = views(all@);
    let ghost rest = views(aliases@);
    assert(first =~= seq![signal@]);
    all.append(&mut aliases);
    assert(views(all@) =~= first + rest);
    assert(views(all@) == seq![signal@] + spec_controller_signal_aliases(board, signal@));
    let ghost xs = views(all@);
    let ghost nets = views(preview_nets@);
    let mut found: Vec<String> = Vec::new();
    let mut i: usize = 0;
    while i < all.len()
        invariant
            xs == views(all@),
            nets == views(preview_nets@),
            i <= all@.len(),
            views(found@) == present_aliases(Seq::empty(), xs.take(i as int), nets),
        decreases all.len() - i,
    {
        assert(xs.take(i + 1).drop_last() =~= xs.take(i as int));
        assert(xs.take(i + 1).last() == all@[i as int]@);
        let ghost before = views(found@);
        if contains_str(preview_nets, all[i].as_str()) && !contains_str(
            found.as_slice(),
            all[i].as_str(),
        ) {
            found.push(all[i].clone());
            assert(views(found@) =~= before.push(all@[i as int]@));
        }
        i = i + 1;
    }
    assert(xs.take(xs.len() as int) =~= xs);
    if found.len() == 0 {
        let mut only: Vec<String> = Vec::new();
        only.push(owned(signal));
        assert(views(only@) =~= seq![signal@]);
        return only;
    }
    found
}

/// The first alias that is not a hierarchical net name.
pub open spec fn first_flat(xs: Seq<Seq<char>>) -> Option<Seq<char>>
    decreases xs.len(),
{
    if xs.len() == 0 {
        None
    } else if !spec_starts_with(xs[0], "/"@) {
        Some(xs[0])
    } else {
        first_flat(xs.drop_first())
    }
}

/// A Mega signal as the board preview labels it: the ADC channel, else
/// its port pin, else the signal itself.
pub open spec fn spec_standard_mega_label(signal: Seq<char>) -> Seq<char> {
    match spec_analog_channel_alias(signal) {
        Some(a) => a,
        None => match first_flat(spec_port_aliases(HostBoard::Mega2560Rev3, signal)) {
            Some(p) => p,
            None => signal,
        },
    }
}

pub fn standard_mega_signal_label(signal: &str) -> (r: String)
    ensures
        r@ == spec_standard_mega_label(signal@),
{
    match analog_channel_alias(signal) {
        Some(a) => {
            return a;
        },
        None => {},
    }
    let aliases = controller_port_aliases(HostBoard::Mega2560Rev3, signal);
    let ghost av = views(aliases@);
    let mut i: usize = 0;
    assert(av.skip(0) =~= av);
    while i < aliases.len()
        invariant
            av == views(aliases@),
            av == spec_port_aliases(HostBoard::Mega2560Rev3, signal@),
            spec_analog_channel_alias(signal@) is None,
            i <= aliases@.len(),
            first_flat(av) == first_flat(av.skip(i as int)),
        decreases aliases.len() - i,
    {
        let a = chars_of(aliases[i].as_str());
        assert(av.skip(i as int)[0] == aliases@[i as int]@);
        if !str_starts_with(&a, "/") {
            return aliases[i].clone();
        }
        assert(av.skip(i as int).drop_first() =~= av.skip(i + 1));
        i = i + 1;
    }
    owned(signal)
}

/// A Nano signal as its silkscreen labels it, else the signal itself.
pub open spec fn spec_standard_nano_label(signal: Seq<char>) -> Seq<char> {
    match spec_nano_board_label(signal) {
        Some((label, _)) => label,
        None => signal,
    }
}

pub fn standard_nano_signal_label(signal: &str) -> (r: String)
    ensures
        r@ == spec_standard_nano_label(signal@),
{
    let aliases = crate::project::autobind::controller_board_label_aliases(HostBoard::NanoV3, signal);
    proof {
        match spec_nano_board_label(signal@) {
            Some((label, esc)) => {
                assert(views(aliases@).len() == 3);
                assert(views(aliases@)[0] == label);
            },
            None => {
                assert(views(aliases@).len() == 0);
            },
        }
    }
    if aliases.len() > 0 {
        assert(views(aliases@)[0] == aliases@[0]@);
        return aliases[0].clone();
    }
    owned(signal)
}

pub fn standard_controller_signal_label(board: HostBoard, signal: &str) -> (r: String)
    ensures
        r@ == (match board {
            HostBoard::Mega2560Rev3 => spec_standard_mega_label(signal@),
            HostBoard::NanoV3 => spec_standard_nano_label(signal@),
        }),
{
    match board {
        HostBoard::Mega2560Rev3 => standard_mega_signal_label(signal),
        HostBoard::NanoV3 => standard_nano_signal_label(signal),
    }
}

// ---------------------------------------------------------------------------
// Module wiring
// ---------------------------------------------------------------------------

/// The header net names a module signal role is usually wired to.
pub open spec fn spec_role_aliases(upper: Seq<char>) -> Seq<Seq<char>> {
    if upper == "VCC"@ {
        seq!["+5V"@, "5V"@, "VCC"@, "+3V3"@, "3V3"@]
    } else if upper == "GND"@ {
        seq!["GND"@]
    } else if upper == "SDA"@ {
        seq!["A4_SDA"@, "A4"@, "D20_SDA"@, "D20"@, "/A4"@, "/20"@, "/*20"@]
    } else if upper == "SCL"@ {
        seq!["A5_SCL"@, "A5"@, "D21_SCL"@, "D21"@, "/A5"@, "/21"@, "/*21"@]
    } else if upper == "SCK"@ || upper == "CLK"@ {
        seq!["D13_SCK"@, "D13"@, "D52_SCK"@, "D52"@, "/13"@, "/*13"@, "/52"@, "/*52"@]
    } else if upper == "SI"@ || upper == "SDI"@ || upper == "MOSI"@ {
        seq!["D11_MOSI"@, "D11"@, "D51_MOSI"@, "D51"@, "/11"@, "/*11"@, "/51"@, "/*51"@]
    } else if upper == "SO"@ || upper == "SDO"@ || upper == "MISO"@ {
        seq!["D12_MISO"@, "D12"@, "D50_MISO"@, "D50"@, "/12"@, "/*12"@, "/50"@, "/*50"@]
    } else if upper == "CS"@ {
        seq!["D10_SS"@, "D10"@, "D53_SS"@, "D53"@, "D27"@, "D26"@, "/10"@, "/*10"@, "/53"@, "/*53"@, "/27"@, "/*27"@, "/26"@, "/*26"@]
    } else if upper == "INT"@ {
        seq!["D2"@, "D28"@, "/2"@, "/*2"@, "/28"@, "/*28"@, "INT"@]
    } else if upper == "CANH"@ {
        seq!["CANH"@, "CAN_H"@]
    } else if upper == "CANL"@ {
        seq!["CANL"@, "CAN_L"@]
    } else if upper == "PWM"@ {
        seq!["D44_PWM"@, "D44"@, "PWM"@, "/44"@, "/*44"@]
    } else if upper == "VOUT"@ {
        seq!["VOUT"@, "Y"@, "ACT_Y"@, "/ACT_Y"@]
    } else {
        Seq::empty()
    }
}

fn role_aliases(upper: &Vec<char>) -> (r: Vec<&'static str>)
    ensures
        r@.map_values(|s: &'static str| s@) == spec_role_aliases(upper@),
{
    let mut r: Vec<&'static str> = Vec::new();
    if is(upper, "VCC") {
        r.push("+5V");
        r.push("5V");
        r.push("VCC");
        r.push("+3V3");
        r.push("3V3");
    } else if is(upper, "GND") {
        r.push("GND");
    } else if is(upper, "SDA") {
        r.push("A4_SDA");
        r.push("A4");
        r.push("D20_SDA");
        r.push("D20");
        r.push("/A4");
        r.push("/20");
        r.push("/*20");
    } else if is(upper, "SCL") {
        r.push("A5_SCL");
        r.push("A5");
        r.push("D21_SCL");
        r.push("D21");
        r.push("/A5");
        r.push("/21");
        r.push("/*21");
    } else if is(upper, "SCK") || is(upper, "CLK") {
        r.push("D13_SCK");
        r.push("D13");
        r.push("D52_SCK");
        r.push("D52");
        r.push("/13");
        r.push("/*13");
        r.push("/52");
        r.push("/*52");
    } else if is(upper, "SI") || is(upper, "SDI") || is(upper, "MOSI") {
        r.push("D11_MOSI");
        r.push("D11");
        r.push("D51_MOSI");
        r.push("D51");
        r.push("/11");
        r.push("/*11");
        r.push("/51");
        r.push("/*51");
    } else if is(upper, "SO") || is(upper, "SDO") || is(upper, "MISO") {
        r.push("D12_MISO");
        r.push("D12");
        r.push("D50_MISO");
        r.push("D50");
        r.push("/12");
        r.push("/*12");
        r.push("/50");
        r.push("/*50");
    } else if is(upper, "CS") {
        r.push("D10_SS");
        r.push("D10");
        r.push("D53_SS");
        r.push("D53");
        r.push("D27");
        r.push("D26");
        r.push("/10");
        r.push("/*10");
        r.push("/53");
        r.push("/*53");
        r.push("/27");
        r.push("/*27");
        r.push("/26");
        r.push("/*26");
    } else if is(upper, "INT") {
        r.push("D2");
        r.push("D28");
        r.push("/2");
        r.push("/*2");
        r.push("/28");
        r.push("/*28");
        r.push("INT");
    } else if is(upper, "CANH") {
        r.push("CANH");
        r.push("CAN_H");
    } else if is(upper, "CANL") {
        r.push("CANL");
        r.push("CAN_L");
    } else if is(upper, "PWM") {
        r.push("D44_PWM");
        r.push("D44");
        r.push("PWM");
        r.push("/44");
        r.push("/*44");
    } else if is(upper, "VOUT") {
        r.push("VOUT");
        r.push("Y");
        r.push("ACT_Y");
        r.push("/ACT_Y");
    }
    assert(r@.map_values(|s: &'static str| s@) =~= spec_role_aliases(upper@));
    r
}

pub open spec fn spec_nano_host_signal_names(pin: BoardPin) -> Seq<Seq<char>> {
    match pin {
        BoardPin::Digital(n) => match n {
            0 => seq!["D0_RX"@, "D0"@],
            1 => seq!["D1_TX"@, "D1"@],
            2 => seq!["D2"@],
            3 => seq!["D3_PWM"@, "D3"@],
            4 => seq!["D4"@],
            5 => seq!["D5_PWM"@, "D5"@],
            6 => seq!["D6_PWM"@, "D6"@],
            7 => seq!["D7"@],
            8 => seq!["D8"@],
            9 => seq!["D9_PWM"@, "D9"@],
            10 => seq!["D10_SS"@, "D10"@],
            11 => seq!["D11_MOSI"@, "D11"@],
            12 => seq!["D12_MISO"@, "D12"@],
            13 => seq!["D13_SCK"@, "D13"@],
            _ => Seq::empty(),
        },
        BoardPin::Analog(n) => match n {
            0 => seq!["A0"@],
            1 => seq!["A1"@],
            2 => seq!["A2"@],
            3 => seq!["A3"@],
            4 => seq!["A4_SDA"@, "A4"@],
            5 => seq!["A5_SCL"@, "A5"@],
            6 => seq!["A6"@],
            7 => seq!["A7"@],
            _ => Seq::empty(),
        },
    }
}

fn nano_host_signal_names(pin: BoardPin) -> (r: Vec<&'static str>)
    ensures
        r@.map_values(|s: &'static str| s@) == spec_nano_host_signal_names(pin),
{
    let mut r: Vec<&'static str> = Vec::new();
    match pin {
        BoardPin::Digital(n) => match n {
            0 => {
                r.push("D0_RX"); r.push("D0");
            },
            1 => {
                r.push("D1_TX"); r.push("D1");
            },
            2 => {
                r.push("D2");
            },
            3 => {
                r.push("D3_PWM"); r.push("D3");
            },
            4 => {
                r.push("D4");
            },
            5 => {
                r.push("D5_PWM"); r.push("D5");
            },
            6 => {
                r.push("D6_PWM"); r.push("D6");
            },
            7 => {
                r.push("D7");
            },
            8 => {
                r.push("D8");
            },
            9 => {
                r.push("D9_PWM"); r.push("D9");
            },
            10 => {
                r.push("D10_SS"); r.push("D10");
            },
            11 => {
                r.push("D11_MOSI"); r.push("D11");
            },
            12 => {
                r.push("D12_MISO"); r.push("D12");
            },
            13 => {
                r.push("D13_SCK"); r.push("D13");
            },
            _ => {},
        },
        BoardPin::Analog(n) => match n {
            0 => {
                r.push("A0");
            },
            1 => {
                r.push("A1");
            },
            2 => {
                r.push("A2");
            },
            3 => {
                r.push("A3");
            },
            4 => {
                r.push("A4_SDA"); r.push("A4");
            },
            5 => {
                r.push("A5_SCL"); r.push("A5");
            },
            6 => {
                r.push("A6");
            },
            7 => {
                r.push("A7");
            },
            _ => {},
        },
    }
    assert(r@.map_values(|s: &'static str| s@) =~= spec_nano_host_signal_names(pin));
    r
}

pub open spec fn spec_mega_host_signal_names(pin: BoardPin) -> Seq<Seq<char>> {
    match pin {
        BoardPin::Digital(n) => match n {
            0 => seq!["D0_RX0"@, "D0"@],
            1 => seq!["D1_TX0"@, "D1"@],
            2 => seq!["D2"@],
            3 => seq!["D3_PWM"@, "D3"@],
            4 => seq!["D4"@],
            5 => seq!["D5_PWM"@, "D5"@],
            6 => seq!["D6_PWM"@, "D6"@],
            7 => seq!["D7"@],
            8 => seq!["D8"@],
            9 => seq!["D9_PWM"@, "D9"@],
            10 => seq!["D10_PWM"@, "D10"@],
            11 => seq!["D11_PWM"@, "D11"@],
            12 => seq!["D12"@],
            13 => seq!["D13"@],
            14 => seq!["D14_TX3"@, "D14"@],
            15 => seq!["D15_RX3"@, "D15"@],
            16 => seq!["D16_TX2"@, "D16"@],
            17 => seq!["D17_RX2"@, "D17"@],
            18 => seq!["D18_TX1"@, "D18"@],
            19 => seq!["D19_RX1"@, "D19"@],
            20 => seq!["D20_SDA"@, "D20"@],
            21 => seq!["D21_SCL"@, "D21"@],
            22 => seq!["D22"@],
            23 => seq!["D23"@],
            24 => seq!["D24"@],
            25 => seq!["D25"@],
            26 => seq!["D26"@],
            27 => seq!["D27"@],
            28 => seq!["D28"@],
            29 => seq!["D29"@],
            30 => seq!["D30"@],
            31 => seq!["D31"@],
            32 => seq!["D32"@],
            33 => seq!["D33"@],
            34 => seq!["D34"@],
            35 => seq!["D35"@],
            36 => seq!["D36"@],
            37 => seq!["D37"@],
            38 => seq!["D38"@],
            39 => seq!["D39"@],
            40 => seq!["D40"@],
            41 => seq!["D41"@],
            42 => seq!["D42"@],
            43 => seq!["D43"@],
            44 => seq!["D44_PWM"@, "D44"@],
            45 => seq!["D45_PWM"@, "D45"@],
            46 => seq!["D46_PWM"@, "D46"@],
            47 => seq!["D47"@],
            48 => seq!["D48"@],
            49 => seq!["D49"@],
            50 => seq!["D50_MISO"@, "D50"@],
            51 => seq!["D51_MOSI"@, "D51"@],
            52 => seq!["D52_SCK"@, "D52"@],
            53 => seq!["D53_SS"@, "D53"@],
            _ => Seq::empty(),
        },
        BoardPin::Analog(n) => match n {
            0 => seq!["A0"@],
            1 => seq!["A1"@],
            2 => seq!["A2"@],
            3 => seq!["A3"@],
            4 => seq!["A4"@],
            5 => seq!["A5"@],
            6 => seq!["A6"@],
            7 => seq!["A7"@],
            8 => seq!["A8"@],
            9 => seq!["A9"@],
            10 => seq!["A10"@],
            11 => seq!["A11"@],
            12 => seq!["A12"@],
            13 => seq!["A13"@],
            14 => seq!["A14"@],
            15 => seq!["A15"@],
            _ => Seq::empty(),
        },
    }
}

fn mega_host_signal_names(pin: BoardPin) -> (r: Vec<&'static str>)
    ensures
        r@.map_values(|s: &'static str| s@) == spec_mega_host_signal_names(pin),
{
    let mut r: Vec<&'static str> = Vec::new();
    match pin {
        BoardPin::Digital(n) => match n {
            0 => {
                r.push("D0_RX0"); r.push("D0");
            },
            1 => {
                r.push("D1_TX0"); r.push("D1");
            },
            2 => {
                r.push("D2");
            },
            3 => {
                r.push("D3_PWM"); r.push("D3");
            },
            4 => {
                r.push("D4");
            },
            5 => {
                r.push("D5_PWM"); r.push("D5");
            },
            6 => {
                r.push("D6_PWM"); r.push("D6");
            },
            7 => {
                r.push("D7");
            },
            8 => {
                r.push("D8");
            },
            9 => {
                r.push("D9_PWM"); r.push("D9");
            },
            10 => {
                r.push("D10_PWM"); r.push("D10");
            },
            11 => {
                r.push("D11_PWM"); r.push("D11");
            },
            12 => {
                r.push("D12");
            },
            13 => {
                r.push("D13");
            },
            14 => {
                r.push("D14_TX3"); r.push("D14");
            },
            15 => {
                r.push("D15_RX3"); r.push("D15");
            },
            16 => {
                r.push("D16_TX2"); r.push("D16");
            },
            17 => {
                r.push("D17_RX2"); r.push("D17");
            },
            18 => {
                r.push("D18_TX1"); r.push("D18");
            },
            19 => {
                r.push("D19_RX1"); r.push("D19");
            },
            20 => {
                r.push("D20_SDA"); r.push("D20");
            },
            21 => {
                r.push("D21_SCL"); r.push("D21");
            },
            22 => {
                r.push("D22");
            },
            23 => {
                r.push("D23");
            },
            24 => {
                r.push("D24");
            },
            25 => {
                r.push("D25");
            },
            26 => {
                r.push("D26");
            },
            27 => {
                r.push("D27");
            },
            28 => {
                r.push("D28");
            },
            29 => {
                r.push("D29");
            },
            30 => {
                r.push("D30");
            },
            31 => {
                r.push("D31");
            },
            32 => {
                r.push("D32");
            },
            33 => {
                r.push("D33");
            },
            34 => {
                r.push("D34");
            },
            35 => {
                r.push("D35");
            },
            36 => {
                r.push("D36");
            },
            37 => {
                r.push("D37");
            },
            38 => {
                r.push("D38");
            },
            39 => {
                r.push("D39");
            },
            40 => {
                r.push("D40");
            },
            41 => {
                r.push("D41");
            },
            42 => {
                r.push("D42");
            },
            43 => {
                r.push("D43");
            },
            44 => {
                r.push("D44_PWM"); r.push("D44");
            },
            45 => {
                r.push("D45_PWM"); r.push("D45");
            },
            46 => {
                r.push("D46_PWM"); r.push("D46");
            },
            47 => {
                r.push("D47");
            },
            48 => {
                r.push("D48");
            },
            49 => {
                r.push("D49");
            },
            50 => {
                r.push("D50_MISO"); r.push("D50");
            },
            51 => {
                r.push("D51_MOSI"); r.push("D51");
            },
            52 => {
                r.push("D52_SCK"); r.push("D52");
            },
            53 => {
                r.push("D53_SS"); r.push("D53");
            },
            _ => {},
        },
        BoardPin::Analog(n) => match n {
            0 => {
                r.push("A0");
            },
            1 => {
                r.push("A1");
            },
            2 => {
                r.push("A2");
            },
            3 => {
                r.push("A3");
            },
            4 => {
                r.push("A4");
            },
            5 => {
                r.push("A5");
            },
            6 => {
                r.push("A6");
            },
            7 => {
                r.push("A7");
            },
            8 => {
                r.push("A8");
            },
            9 => {
                r.push("A9");
            },
            10 => {
                r.push("A10");
            },
            11 => {
                r.push("A11");
            },
            12 => {
                r.push("A12");
            },
            13 => {
                r.push("A13");
            },
            14 => {
                r.push("A14");
            },
            15 => {
                r.push("A15");
            },
            _ => {},
        },
    }
    assert(r@.map_values(|s: &'static str| s@) =~= spec_mega_host_signal_names(pin));
    r
}

/// Whether `x` equals some entry ignoring ASCII case.
pub open spec fn has_ci(acc: Seq<Seq<char>>, x: Seq<char>) -> bool {
    exists|k: int| 0 <= k < acc.len() && spec_upper_seq(#[trigger] acc[k]) == spec_upper_seq(x)
}

/// `xs` appended to `acc`, skipping entries already there in any case.
pub open spec fn extend_unique_ci(acc: Seq<Seq<char>>, xs: Seq<Seq<char>>) -> Seq<Seq<char>>
    decreases xs.len(),
{
    if xs.len() == 0 {
        acc
    } else {
        let rest = extend_unique_ci(acc, xs.drop_last());
        if has_ci(rest, xs.last()) {
            rest
        } else {
            rest.push(xs.last())
        }
    }
}

/// Extra chip-select names of module models with a named chip.
pub open spec fn spec_model_cs_aliases(model: Seq<char>, upper: Seq<char>) -> Seq<Seq<char>> {
    if model == "mcp2515_tja1050_can_module"@ && upper == "CS"@ {
        seq!["MCP2515_CS"@, "/MCP2515_CS"@]
    } else if model == "max31865_breakout"@ && upper == "CS"@ {
        seq!["MAX31865_CS"@, "/MAX31865_CS"@]
    } else {
        Seq::empty()
    }
}

/// The net names a module signal may carry: the signal, the header nets of
/// its role, and the model's own chip-select names, each once in any case.
pub open spec fn spec_module_signal_aliases(model: Seq<char>, signal: Seq<char>) -> Seq<Seq<char>> {
    let u = spec_upper_seq(signal);
    extend_unique_ci(seq![signal], spec_role_aliases(u) + spec_model_cs_aliases(model, u))
}

fn model_cs_aliases(model: &str, upper: &Vec<char>) -> (r: Vec<&'static str>)
    ensures
        r@.map_values(|s: &'static str| s@) == spec_model_cs_aliases(model@, upper@),
{
    let mut r: Vec<&'static str> = Vec::new();
    if str_eq(model, "mcp2515_tja1050_can_module") && is(upper, "CS") {
        r.push("MCP2515_CS");
        r.push("/MCP2515_CS");
    } else if str_eq(model, "max31865_breakout") && is(upper, "CS") {
        r.push("MAX31865_CS");
        r.push("/MAX31865_CS");
    }
    assert(r@.map_values(|s: &'static str| s@) =~= spec_model_cs_aliases(model@, upper@));
    r
}

fn contains_ci(acc: &Vec<String>, x: &str) -> (r: bool)
    ensures
        r == has_ci(views(acc@), x@),
{
    let xu = upper(&chars_of(x));
    let mut k: usize = 0;
    while k < acc.len()
        invariant
            xu@ == spec_upper_seq(x@),
            k <= acc@.len(),
            forall|j: int| 0 <= j < k ==> spec_upper_seq(acc@[j]@) != spec_upper_seq(x@),
        decreases acc.len() - k,
    {
        let au = upper(&chars_of(acc[k].as_str()));
        if crate::text::chars_eq(&au, &xu) {
            assert(views(acc@)[k as int] == acc@[k as int]@);
            return true;
        }
        k = k + 1;
    }
    assert(!has_ci(views(acc@), x@)) by {
        if has_ci(views(acc@), x@) {
            let j = choose|j: int|
                0 <= j < views(acc@).len() && spec_upper_seq(#[trigger] views(acc@)[j])
                    == spec_upper_seq(x@);
            assert(views(acc@)[j] == acc@[j]@);
        }
    }
    false
}

pub fn module_signal_aliases(model: &str, signal: &str) -> (r: Vec<String>)
    ensures
        views(r@) == spec_module_signal_aliases(model@, signal@),
{
    let mut aliases: Vec<String> = Vec::new();
    aliases.push(owned(signal));
    let u = upper(&chars_of(signal));
    let mut extra = role_aliases(&u);
    let mut cs = model_cs_aliases(model, &u);
    let ghost e1 = extra@.map_values(|s: &'static str| s@);
    let ghost e2 = cs@.map_values(|s: &'static str| s@);
    extra.append(&mut cs);
    let ghost xs = extra@.map_values(|s: &'static str| s@);
    assert(xs =~= e1 + e2);
    assert(views(aliases@) =~= seq![signal@]);
    let mut i: usize = 0;
    while i < extra.len()
        invariant
            xs == extra@.map_values(|s: &'static str| s@),
            i <= extra@.len(),
            views(aliases@) == extend_unique_ci(seq![signal@], xs.take(i as int)),
        decreases extra.len() - i,
    {
        assert(xs.take(i + 1).drop_last() =~= xs.take(i as int));
        assert(xs.take(i + 1).last() == extra@[i as int]@);
        let ghost before = views(aliases@);
        if !contains_ci(&aliases, extra[i]) {
            aliases.push(owned(extra[i]));
            assert(views(aliases@) =~= before.push(extra@[i as int]@));
        }
        i = i + 1;
    }
    assert(xs.take(xs.len() as int) =~= xs);
    aliases
}

/// Ranked PCB nets for a module signal.
pub fn module_signal_suggestions(model: &str, signal: &str, available_nets: &[String]) -> (r: Vec<
    NetSuggestion,
>)
    ensures
        sviews(r@) == spec_suggest_pcb_nets(
            signal@,
            spec_module_signal_aliases(model@, signal@),
            views(available_nets@),
        ),
{
    let aliases = module_signal_aliases(model, signal);
    suggest_pcb_nets(signal, aliases.as_slice(), available_nets)
}

// ---------------------------------------------------------------------------
// Host pin levels by signal name
// ---------------------------------------------------------------------------

pub fn host_signal_names(board: HostBoard, pin: BoardPin) -> (r: Vec<&'static str>)
    ensures
        r@.map_values(|s: &'static str| s@) == (match board {
            HostBoard::NanoV3 => spec_nano_host_signal_names(pin),
            HostBoard::Mega2560Rev3 => spec_mega_host_signal_names(pin),
        }),
{
    match board {
        HostBoard::NanoV3 => nano_host_signal_names(pin),
        HostBoard::Mega2560Rev3 => mega_host_signal_names(pin),
    }
}

pub open spec fn spec_host_signal_names(board: HostBoard, pin: BoardPin) -> Seq<Seq<char>> {
    match board {
        HostBoard::NanoV3 => spec_nano_host_signal_names(pin),
        HostBoard::Mega2560Rev3 => spec_mega_host_signal_names(pin),
    }
}

/// Every signal name of each pin with the pin's level, pin by pin.
pub open spec fn spec_signal_levels(board: HostBoard, levels: Seq<BoardPinLevel>) -> Seq<(Seq<char>, u8)>
    decreases levels.len(),
{
    if levels.len() == 0 {
        Seq::empty()
    } else {
        let e = levels.last();
        spec_signal_levels(board, levels.drop_last()) + spec_host_signal_names(board, e.pin).map_values(
            |n: Seq<char>| (n, e.level),
        )
    }
}

pub open spec fn level_views(v: Seq<(String, u8)>) -> Seq<(Seq<char>, u8)> {
    v.map_values(|x: (String, u8)| (x.0@, x.1))
}

/// The host pin levels of a snapshot under every name of each pin's signal.
pub fn host_signal_levels_for_snapshot(snapshot: &SimulationSnapshot) -> (r: Vec<(String, u8)>)
    ensures
        level_views(r@) == spec_signal_levels(snapshot.board, snapshot.host_pin_levels@),
{
    let entries = &snapshot.host_pin_levels;
    let mut levels: Vec<(String, u8)> = Vec::new();
    let mut i: usize = 0;
    while i < entries.len()
        invariant
            entries@ == snapshot.host_pin_levels@,
            i <= entries@.len(),
            level_views(levels@) == spec_signal_levels(snapshot.board, entries@.take(i as int)),
        decreases entries.len() - i,
    {
        assert(entries@.take(i + 1).drop_last() =~= entries@.take(i as int));
        let entry = &entries[i];
        let names = host_signal_names(snapshot.board, entry.pin);
        let ghost nv = names@.map_values(|s: &'static str| s@);
        let ghost start = level_views(levels@);
        let mut j: usize = 0;
        while j < names.len()
            invariant
                nv == names@.map_values(|s: &'static str| s@),
                j <= names@.len(),
                level_views(levels@) == start + nv.take(j as int).map_values(
                    |n: Seq<char>| (n, entry.level),
                ),
            decreases names.len() - j,
        {
            let ghost before = level_views(levels@);
            levels.push((owned(names[j]), entry.level));
            assert(nv.take(j + 1).map_values(|n: Seq<char>| (n, entry.level)) =~= nv.take(
                j as int,
            ).map_values(|n: Seq<char>| (n, entry.level)).push((nv[j as int], entry.level)));
            assert(level_views(levels@) =~= before.push((names@[j as int]@, entry.level)));
            j = j + 1;
        }
        assert(nv.take(nv.len() as int) =~= nv);
        i = i + 1;
    }
    assert(entries@.take(entries@.len() as int) =~= entries@);
    levels
}

// ---------------------------------------------------------------------------
// Module overlay names
// ---------------------------------------------------------------------------

/// The base of an overlay's name: the model without a trailing `_module`
/// or `_board`.
pub open spec fn overlay_base(model: Seq<char>) -> Seq<char> {
    match spec_strip_suffix(model, "_module"@) {
        Some(b) => b,
        None => match spec_strip_suffix(model, "_board"@) {
            Some(b) => b,
            None => model,
        },
    }
}

/// The name a new overlay of `model` gets: its base followed by `_<n>`,
/// with the least `n` from 1 on that no overlay uses.
pub fn next_module_overlay_name(model: &str, existing: &[ModuleOverlay]) -> (r: String)
    requires
        existing@.len() + 1 <= u64::MAX,
    ensures
        first_free_name(r@, overlay_base(model@) + "_"@, 1, overlay_names(existing@)),
{
    let chars = chars_of(model);
    let base = match strip_suffix(&chars, "_module") {
        Some(b) => b,
        None => match strip_suffix(&chars, "_board") {
            Some(b) => b,
            None => chars,
        },
    };
    let mut names: Vec<String> = Vec::new();
    let mut i: usize = 0;
    while i < existing.len()
        invariant
            i <= existing@.len(),
            views(names@) == overlay_names(existing@.take(i as int)),
        decreases existing.len() - i,
    {
        let ghost before = views(names@);
        names.push(owned(existing[i].name.as_str()));
        assert(views(names@) =~= before.push(existing@[i as int].name@));
        assert(existing@.take(i + 1) =~= existing@.take(i as int).push(existing@[i as int]));
        assert(views(names@) =~= overlay_names(existing@.take(i + 1)));
        i = i + 1;
    }
    assert(existing@.take(i as int) =~= existing@);
    let base_text = string_of(&base);
    let prefix = concat2(base_text.as_str(), "_");
    let k = first_free_number(prefix.as_str(), 1, names.as_slice());
    let digits = string_of(&decimal(k));
    concat2(prefix.as_str(), digits.as_str())
}

} // verus!

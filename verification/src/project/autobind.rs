//! Heuristics that wire host-board signals to PCB nets: which board a
//! firmware file is for, what a project is called, how a signal or a net is
//! used, which net names are aliases of a controller pin, and how well a
//! net matches a signal.

use vstd::prelude::*;
use crate::project::paths::{cviews, file_name, spec_file_name, spec_stem_of, stem_of};
use crate::project::shared::{BindingMode, HostBoard, SignalBinding};
use crate::text::{
    strictly_sorted, all_digits, chars_eq, chars_of, is, is_blank, lower, owned, parse_u8, slice, spec_all_digits,
    spec_contains, spec_ends_with, spec_is_blank, spec_lower_seq, spec_parse_u8, spec_starts_with,
    spec_strip_suffix, spec_trim, spec_upper_seq, str_contains, str_ends_with, str_starts_with,
    string_of, strip_prefix, strip_suffix, trim, upper, spec_strip_prefix, concat2, contains_str,
    decimal, spec_decimal, views, is_alnum, is_alpha, to_upper, spec_is_alnum, spec_is_alpha,
    spec_upper, occurs_at, chars_lt, chars_less, contains, lemma_chars_lt_asymmetric,
    lemma_chars_lt_transitive, lemma_chars_lt_irreflexive, spec_occurs_at,
};

verus! {

/// A PCB net proposed for a signal, with its score and the strongest reason.
#[derive(Debug, Clone)]
pub struct NetSuggestion {
    pub net_name: String,
    pub score: i32,
    pub reason: &'static str,
}

pub open spec fn spec_confidence_label(score: int) -> Seq<char> {
    if score >= 900 {
        "exact"@
    } else if score >= 450 {
        "high"@
    } else if score >= 250 {
        "medium"@
    } else {
        "low"@
    }
}

impl NetSuggestion {
    /// How sure the score makes the suggestion.
    pub fn confidence_label(&self) -> (r: &'static str)
        ensures
            r@ == spec_confidence_label(self.score as int),
    {
        if self.score >= 900 {
            "exact"
        } else if self.score >= 450 {
            "high"
        } else if self.score >= 250 {
            "medium"
        } else {
            "low"
        }
    }
}

// ---------------------------------------------------------------------------
// Host board and project name from file names
// ---------------------------------------------------------------------------

/// The host board a firmware or board file name hints at: an MCU name
/// first, then a `nano` or `mega` word (but not both).
pub open spec fn spec_inferred_host_board(path: Seq<char>) -> Option<HostBoard> {
    let n = spec_lower_seq(spec_trim(path));
    if n.len() == 0 {
        None
    } else if spec_contains(n, "atmega328"@) || spec_contains(n, "328p"@) {
        Some(HostBoard::NanoV3)
    } else if spec_contains(n, "atmega2560"@) || spec_contains(n, "2560"@) {
        Some(HostBoard::Mega2560Rev3)
    } else {
        let nano = spec_contains(n, "nano"@);
        let mega = spec_contains(n, "/mega"@) || spec_contains(n, "_mega"@) || spec_contains(
            n,
            "mega_"@,
        );
        if nano && !mega {
            Some(HostBoard::NanoV3)
        } else if !nano && mega {
            Some(HostBoard::Mega2560Rev3)
        } else {
            None
        }
    }
}

pub fn inferred_host_board_from_source(path: &str) -> (r: Option<HostBoard>)
    ensures
        r == spec_inferred_host_board(path@),
{
    let raw = chars_of(path);
    let trimmed = trim(&raw);
    let n = lower(&trimmed);
    if n.len() == 0 {
        return None;
    }
    if str_contains(&n, "atmega328") || str_contains(&n, "328p") {
        return Some(HostBoard::NanoV3);
    }
    if str_contains(&n, "atmega2560") || str_contains(&n, "2560") {
        return Some(HostBoard::Mega2560Rev3);
    }
    let looks_like_nano = str_contains(&n, "nano");
    let looks_like_mega = str_contains(&n, "/mega") || str_contains(&n, "_mega") || str_contains(
        &n,
        "mega_",
    );
    if looks_like_nano && !looks_like_mega {
        Some(HostBoard::NanoV3)
    } else if !looks_like_nano && looks_like_mega {
        Some(HostBoard::Mega2560Rev3)
    } else {
        None
    }
}

/// A file name without the first document suffix it ends with.
pub open spec fn spec_strip_avrsim_suffix(name: Seq<char>) -> Seq<char> {
    if spec_ends_with(name, ".board.avrsim.json"@) {
        spec_strip_suffix(name, ".board.avrsim.json"@).unwrap()
    } else if spec_ends_with(name, ".avrsim.json"@) {
        spec_strip_suffix(name, ".avrsim.json"@).unwrap()
    } else if spec_ends_with(name, ".board.avrsim"@) {
        spec_strip_suffix(name, ".board.avrsim"@).unwrap()
    } else if spec_ends_with(name, ".avrsim"@) {
        spec_strip_suffix(name, ".avrsim"@).unwrap()
    } else if spec_ends_with(name, ".json"@) {
        spec_strip_suffix(name, ".json"@).unwrap()
    } else {
        name
    }
}

pub fn strip_avrsim_suffix(name: &Vec<char>) -> (r: Vec<char>)
    ensures
        r@ == spec_strip_avrsim_suffix(name@),
{
    match strip_suffix(name, ".board.avrsim.json") {
        Some(v) => {
            return v;
        },
        None => {},
    }
    match strip_suffix(name, ".avrsim.json") {
        Some(v) => {
            return v;
        },
        None => {},
    }
    match strip_suffix(name, ".board.avrsim") {
        Some(v) => {
            return v;
        },
        None => {},
    }
    match strip_suffix(name, ".avrsim") {
        Some(v) => {
            return v;
        },
        None => {},
    }
    match strip_suffix(name, ".json") {
        Some(v) => {
            return v;
        },
        None => {},
    }
    name.clone()
}

/// The name a file gives a project: its name without a document suffix
/// when that leaves something, else its stem.
pub open spec fn spec_display_stem(path: Seq<char>) -> Option<Seq<char>> {
    match spec_file_name(path) {
        None => None,
        Some(name) => {
            let stem = spec_strip_avrsim_suffix(name);
            if stem != name && !spec_is_blank(stem) {
                Some(stem)
            } else {
                Some(spec_stem_of(name))
            }
        },
    }
}

pub fn display_stem_for_path(path: &str) -> (r: Option<String>)
    ensures
        match r {
            Some(s) => spec_display_stem(path@) == Some(s@),
            None => spec_display_stem(path@) is None,
        },
{
    let name = match file_name(path) {
        Some(name) => name,
        None => {
            return None;
        },
    };
    let stem = strip_avrsim_suffix(&name);
    let stem_text = string_of(&stem);
    if !chars_eq(&stem, &name) && !is_blank(stem_text.as_str()) {
        return Some(stem_text);
    }
    Some(string_of(&stem_of(&name)))
}

pub open spec fn spec_default_project_name(source: Seq<char>, pcb: Seq<char>) -> Seq<char> {
    match spec_display_stem(source) {
        Some(s) => s,
        None => match spec_display_stem(pcb) {
            Some(s) => s,
            None => "Untitled Simulation"@,
        },
    }
}

/// The name of a new project: from the firmware file, else the PCB file.
pub fn default_project_name(source_path: &str, pcb_path: &str) -> (r: String)
    ensures
        r@ == spec_default_project_name(source_path@, pcb_path@),
{
    match display_stem_for_path(source_path) {
        Some(stem) => {
            return stem;
        },
        None => {},
    }
    match display_stem_for_path(pcb_path) {
        Some(stem) => {
            return stem;
        },
        None => {},
    }
    owned("Untitled Simulation")
}

// ---------------------------------------------------------------------------
// How a signal or a net is used
// ---------------------------------------------------------------------------

pub open spec fn spec_infer_binding_mode(s: Seq<char>) -> BindingMode {
    if spec_starts_with(s, "A"@) || spec_contains(s, "_PWM"@) || s == "AREF"@ {
        BindingMode::Analog
    } else if spec_contains(s, "_SDA"@) || spec_contains(s, "_SCL"@) || spec_contains(s, "_MISO"@)
        || spec_contains(s, "_MOSI"@) || spec_contains(s, "_SCK"@) || spec_ends_with(s, "_SS"@)
        || spec_ends_with(s, "_RX"@) || spec_ends_with(s, "_TX"@) {
        BindingMode::Bus
    } else if s == "GND"@ || s == "+5V"@ || s == "+3V3"@ || s == "VIN"@ || s == "IOREF"@ || s
        == "RESET"@ {
        BindingMode::Power
    } else {
        BindingMode::Digital
    }
}

/// How a host-board signal is used, from its name.
pub fn infer_binding_mode(signal: &str) -> (r: BindingMode)
    ensures
        r == spec_infer_binding_mode(signal@),
{
    let s = chars_of(signal);
    if str_starts_with(&s, "A") || str_contains(&s, "_PWM") || is(&s, "AREF") {
        return BindingMode::Analog;
    }
    if str_contains(&s, "_SDA") || str_contains(&s, "_SCL") || str_contains(&s, "_MISO")
        || str_contains(&s, "_MOSI") || str_contains(&s, "_SCK") || str_ends_with(&s, "_SS")
        || str_ends_with(&s, "_RX") || str_ends_with(&s, "_TX") {
        return BindingMode::Bus;
    }
    if is(&s, "GND") || is(&s, "+5V") || is(&s, "+3V3") || is(&s, "VIN") || is(&s, "IOREF") || is(
        &s,
        "RESET",
    ) {
        return BindingMode::Power;
    }
    BindingMode::Digital
}

/// The name of a supply, ground or reset rail of the host boards.
pub open spec fn is_rail_name(s: Seq<char>) -> bool {
    s == "GND"@ || s == "+5V"@ || s == "+3V3"@ || s == "VIN"@ || s == "IOREF"@ || s == "RESET"@
}

proof fn lemma_no_underscore_pattern(s: Seq<char>, p: Seq<char>)
    requires
        p.len() > 0,
        p[0] == '_',
        forall|i: int| 0 <= i < s.len() ==> s[i] != '_',
    ensures
        !spec_contains(s, p),
        !spec_ends_with(s, p),
{
    assert forall|i: int| !spec_occurs_at(s, p, i) by {
        if spec_occurs_at(s, p, i) {
            assert(s.subrange(i, i + p.len())[0] == p[0]);
        }
    }
    if spec_ends_with(s, p) {
        assert(s.subrange(s.len() - p.len(), s.len() as int)[0] == p[0]);
    }
}

proof fn lemma_rail_not_analog_or_bus(s: Seq<char>)
    requires
        is_rail_name(s),
    ensures
        spec_infer_binding_mode(s) == BindingMode::Power,
{
    reveal_strlit("GND");
    reveal_strlit("+5V");
    reveal_strlit("+3V3");
    reveal_strlit("VIN");
    reveal_strlit("IOREF");
    reveal_strlit("RESET");
    reveal_strlit("A");
    reveal_strlit("AREF");
    reveal_strlit("_PWM");
    reveal_strlit("_SDA");
    reveal_strlit("_SCL");
    reveal_strlit("_MISO");
    reveal_strlit("_MOSI");
    reveal_strlit("_SCK");
    reveal_strlit("_SS");
    reveal_strlit("_RX");
    reveal_strlit("_TX");
    assert(s.len() > 0 && s[0] != 'A');
    assert(!spec_starts_with(s, "A"@)) by {
        if spec_starts_with(s, "A"@) {
            assert(s.subrange(0, 1)[0] == s[0]);
        }
    }
    assert(s != "AREF"@) by {
        if s == "AREF"@ {
            assert(s[0] == 'A');
        }
    }
    assert(forall|i: int| 0 <= i < s.len() ==> s[i] != '_');
    lemma_no_underscore_pattern(s, "_PWM"@);
    lemma_no_underscore_pattern(s, "_SDA"@);
    lemma_no_underscore_pattern(s, "_SCL"@);
    lemma_no_underscore_pattern(s, "_MISO"@);
    lemma_no_underscore_pattern(s, "_MOSI"@);
    lemma_no_underscore_pattern(s, "_SCK"@);
    lemma_no_underscore_pattern(s, "_SS"@);
    lemma_no_underscore_pattern(s, "_RX"@);
    lemma_no_underscore_pattern(s, "_TX"@);
}

/// A host-board signal is a power binding exactly when it names a supply,
/// ground or reset rail: GND, +5V, +3V3, VIN, IOREF or RESET.
pub proof fn law_power_rails(s: Seq<char>)
    ensures
        spec_infer_binding_mode(s) == BindingMode::Power <==> is_rail_name(s),
        s == "GND"@ ==> spec_infer_binding_mode(s) == BindingMode::Power,
        s == "+5V"@ ==> spec_infer_binding_mode(s) == BindingMode::Power,
        s == "+3V3"@ ==> spec_infer_binding_mode(s) == BindingMode::Power,
        s == "VIN"@ ==> spec_infer_binding_mode(s) == BindingMode::Power,
        s == "IOREF"@ ==> spec_infer_binding_mode(s) == BindingMode::Power,
        s == "RESET"@ ==> spec_infer_binding_mode(s) == BindingMode::Power,
{
    if is_rail_name(s) {
        lemma_rail_not_analog_or_bus(s);
    }
}

/// Analog inputs (a name starting with `A`, such as A0 or AREF) and PWM
/// outputs are analog bindings; a plain pin name starting with `D` and
/// holding no `_` role suffix (such as D27) is a digital binding.
pub proof fn law_analog_and_digital_signals(s: Seq<char>)
    ensures
        s.len() > 0 && s[0] == 'A' ==> spec_infer_binding_mode(s) == BindingMode::Analog,
        spec_contains(s, "_PWM"@) ==> spec_infer_binding_mode(s) == BindingMode::Analog,
        s.len() > 0 && s[0] == 'D' && (forall|i: int| 0 <= i < s.len() ==> s[i] != '_')
            ==> spec_infer_binding_mode(s) == BindingMode::Digital,
{
    reveal_strlit("A");
    reveal_strlit("AREF");
    reveal_strlit("GND");
    reveal_strlit("+5V");
    reveal_strlit("+3V3");
    reveal_strlit("VIN");
    reveal_strlit("IOREF");
    reveal_strlit("RESET");
    reveal_strlit("_PWM");
    reveal_strlit("_SDA");
    reveal_strlit("_SCL");
    reveal_strlit("_MISO");
    reveal_strlit("_MOSI");
    reveal_strlit("_SCK");
    reveal_strlit("_SS");
    reveal_strlit("_RX");
    reveal_strlit("_TX");
    if s.len() > 0 && s[0] == 'A' {
        assert(s.subrange(0, 1) =~= "A"@);
    }
    if s.len() > 0 && s[0] == 'D' && (forall|i: int| 0 <= i < s.len() ==> s[i] != '_') {
        assert(!spec_starts_with(s, "A"@)) by {
            if spec_starts_with(s, "A"@) {
                assert(s.subrange(0, 1)[0] == s[0]);
            }
        }
        assert(s != "AREF"@ && !is_rail_name(s)) by {
            if s == "AREF"@ || is_rail_name(s) {
                assert(s[0] != 'D');
            }
        }
        lemma_no_underscore_pattern(s, "_PWM"@);
        lemma_no_underscore_pattern(s, "_SDA"@);
        lemma_no_underscore_pattern(s, "_SCL"@);
        lemma_no_underscore_pattern(s, "_MISO"@);
        lemma_no_underscore_pattern(s, "_MOSI"@);
        lemma_no_underscore_pattern(s, "_SCK"@);
        lemma_no_underscore_pattern(s, "_SS"@);
        lemma_no_underscore_pattern(s, "_RX"@);
        lemma_no_underscore_pattern(s, "_TX"@);
    }
}

/// `s` without its leading `/` characters.
pub open spec fn spec_trim_leading_slashes(s: Seq<char>) -> Seq<char>
    decreases s.len(),
{
    if s.len() > 0 && s[0] == '/' {
        spec_trim_leading_slashes(s.drop_first())
    } else {
        s
    }
}

fn trim_leading_slashes(s: &Vec<char>) -> (r: Vec<char>)
    ensures
        r@ == spec_trim_leading_slashes(s@),
{
    let mut i: usize = 0;
    assert(s@.skip(0) =~= s@);
    while i < s.len() && s[i] == '/'
        invariant
            i <= s@.len(),
            spec_trim_leading_slashes(s@) == spec_trim_leading_slashes(s@.skip(i as int)),
        decreases s.len() - i,
    {
        assert(s@.skip(i as int).drop_first() =~= s@.skip(i + 1));
        i = i + 1;
    }
    let r = slice(s, i, s.len());
    assert(r@ =~= s@.skip(i as int));
    r
}

pub open spec fn spec_infer_net_binding_mode(name: Seq<char>) -> BindingMode {
    let u = spec_upper_seq(spec_trim_leading_slashes(name));
    if u == "GND"@ || spec_contains(u, "GROUND"@) {
        BindingMode::Power
    } else if spec_starts_with(u, "+"@) || spec_contains(u, "VCC"@) || spec_contains(u, "VDD"@)
        || spec_contains(u, "VIN"@) || spec_contains(u, "24V"@) || spec_contains(u, "12V"@)
        || spec_contains(u, "5V"@) || spec_contains(u, "3V3"@) || spec_contains(u, "IOREF"@) {
        BindingMode::Power
    } else if spec_starts_with(u, "A"@) || spec_contains(u, "ADC"@) || spec_contains(u, "_RAW"@) {
        BindingMode::Analog
    } else if spec_contains(u, "SDA"@) || spec_contains(u, "SCL"@) || spec_contains(u, "MISO"@)
        || spec_contains(u, "MOSI"@) || spec_contains(u, "SCK"@) || spec_contains(u, "CLK"@)
        || spec_contains(u, "SPI"@) || spec_contains(u, "I2C"@) || spec_contains(u, "UART"@)
        || spec_contains(u, "CAN"@) || spec_contains(u, "IRQ"@) || spec_contains(u, "INT"@)
        || spec_contains(u, "CS"@) || spec_ends_with(u, "_RX"@) || spec_ends_with(u, "_TX"@) {
        BindingMode::Bus
    } else {
        BindingMode::Digital
    }
}

/// How a PCB net is used, from its name.
pub fn infer_net_binding_mode(name: &str) -> (r: BindingMode)
    ensures
        r == spec_infer_net_binding_mode(name@),
{
    let raw = chars_of(name);
    let trimmed = trim_leading_slashes(&raw);
    let u = upper(&trimmed);
    if is(&u, "GND") || str_contains(&u, "GROUND") {
        return BindingMode::Power;
    }
    if str_starts_with(&u, "+") || str_contains(&u, "VCC") || str_contains(&u, "VDD")
        || str_contains(&u, "VIN") || str_contains(&u, "24V") || str_contains(&u, "12V")
        || str_contains(&u, "5V") || str_contains(&u, "3V3") || str_contains(&u, "IOREF") {
        return BindingMode::Power;
    }
    if str_starts_with(&u, "A") || str_contains(&u, "ADC") || str_contains(&u, "_RAW") {
        return BindingMode::Analog;
    }
    if str_contains(&u, "SDA") || str_contains(&u, "SCL") || str_contains(&u, "MISO")
        || str_contains(&u, "MOSI") || str_contains(&u, "SCK") || str_contains(&u, "CLK")
        || str_contains(&u, "SPI") || str_contains(&u, "I2C") || str_contains(&u, "UART")
        || str_contains(&u, "CAN") || str_contains(&u, "IRQ") || str_contains(&u, "INT")
        || str_contains(&u, "CS") || str_ends_with(&u, "_RX") || str_ends_with(&u, "_TX") {
        return BindingMode::Bus;
    }
    BindingMode::Digital
}

// ---------------------------------------------------------------------------
// Pin numbers in signal names
// ---------------------------------------------------------------------------

/// The text of `s` before its first `c` (all of `s` when there is none).
pub open spec fn spec_before_char(s: Seq<char>, c: char) -> Seq<char>
    decreases s.len(),
{
    if s.len() == 0 {
        s
    } else if s[0] == c {
        Seq::empty()
    } else {
        seq![s[0]] + spec_before_char(s.drop_first(), c)
    }
}

pub fn before_char(s: &Vec<char>, c: char) -> (r: Vec<char>)
    ensures
        r@ == spec_before_char(s@, c),
{
    let mut i: usize = 0;
    assert(s@.skip(0) =~= s@);
    assert(s@.take(0) =~= Seq::<char>::empty());
    while i < s.len() && s[i] != c
        invariant
            i <= s@.len(),
            forall|k: int| 0 <= k < i ==> s@[k] != c,
            spec_before_char(s@, c) == s@.take(i as int) + spec_before_char(s@.skip(i as int), c),
        decreases s.len() - i,
    {
        assert(s@.skip(i as int).drop_first() =~= s@.skip(i + 1));
        assert(s@.take(i + 1) =~= s@.take(i as int) + seq![s@[i as int]]);
        i = i + 1;
    }
    let r = slice(s, 0, i);
    assert(r@ =~= s@.take(i as int));
    assert(spec_before_char(s@.skip(i as int), c) =~= Seq::<char>::empty());
    assert(r@ =~= s@.take(i as int) + Seq::<char>::empty());
    r
}

/// The number after `prefix` in a signal name such as `D13_SCK`: the digits
/// up to the first `_`, when they fit in a byte.
pub open spec fn spec_signal_number(signal: Seq<char>, prefix: char) -> Option<u8> {
    if signal.len() > 0 && signal[0] == prefix {
        let digits = spec_before_char(signal.drop_first(), '_');
        if digits.len() == 0 || !spec_all_digits(digits) {
            None
        } else {
            spec_parse_u8(digits)
        }
    } else {
        None
    }
}

pub fn parse_board_signal_number(signal: &str, prefix: char) -> (r: Option<u8>)
    ensures
        r == spec_signal_number(signal@, prefix),
{
    let s = chars_of(signal);
    if s.len() == 0 || s[0] != prefix {
        return None;
    }
    let rest = slice(&s, 1, s.len());
    assert(rest@ =~= s@.drop_first());
    let digits = before_char(&rest, '_');
    if digits.len() == 0 || !all_digits(&digits) {
        return None;
    }
    parse_u8(&digits)
}

// ---------------------------------------------------------------------------
// Controller pin aliases
// ---------------------------------------------------------------------------

/// The ATmega2560 port pin behind a Mega digital pin.
pub open spec fn spec_mega_digital_port(n: u8) -> Option<Seq<char>> {
    match n {
        0 => Some("PE0"@),
        1 => Some("PE1"@),
        2 => Some("PE4"@),
        3 => Some("PE5"@),
        4 => Some("PG5"@),
        5 => Some("PE3"@),
        6 => Some("PH3"@),
        7 => Some("PH4"@),
        8 => Some("PH5"@),
        9 => Some("PH6"@),
        10 => Some("PB4"@),
        11 => Some("PB5"@),
        12 => Some("PB6"@),
        13 => Some("PB7"@),
        14 => Some("PJ1"@),
        15 => Some("PJ0"@),
        16 => Some("PH1"@),
        17 => Some("PH0"@),
        18 => Some("PD3"@),
        19 => Some("PD2"@),
        20 => Some("PD1"@),
        21 => Some("PD0"@),
        22 => Some("PA0"@),
        23 => Some("PA1"@),
        24 => Some("PA2"@),
        25 => Some("PA3"@),
        26 => Some("PA4"@),
        27 => Some("PA5"@),
        28 => Some("PA6"@),
        29 => Some("PA7"@),
        30 => Some("PC7"@),
        31 => Some("PC6"@),
        32 => Some("PC5"@),
        33 => Some("PC4"@),
        34 => Some("PC3"@),
        35 => Some("PC2"@),
        36 => Some("PC1"@),
        37 => Some("PC0"@),
        38 => Some("PD7"@),
        39 => Some("PG2"@),
        40 => Some("PG1"@),
        41 => Some("PG0"@),
        42 => Some("PL7"@),
        43 => Some("PL6"@),
        44 => Some("PL5"@),
        45 => Some("PL4"@),
        46 => Some("PL3"@),
        47 => Some("PL2"@),
        48 => Some("PL1"@),
        49 => Some("PL0"@),
        50 => Some("PB3"@),
        51 => Some("PB2"@),
        52 => Some("PB1"@),
        53 => Some("PB0"@),
        _ => None,
    }
}

fn mega_digital_port(n: u8) -> (r: Option<&'static str>)
    ensures
        match r {
            Some(p) => spec_mega_digital_port(n) == Some(p@),
            None => spec_mega_digital_port(n) is None,
        },
{
    match n {
        0 => Some("PE0"),
        1 => Some("PE1"),
        2 => Some("PE4"),
        3 => Some("PE5"),
        4 => Some("PG5"),
        5 => Some("PE3"),
        6 => Some("PH3"),
        7 => Some("PH4"),
        8 => Some("PH5"),
        9 => Some("PH6"),
        10 => Some("PB4"),
        11 => Some("PB5"),
        12 => Some("PB6"),
        13 => Some("PB7"),
        14 => Some("PJ1"),
        15 => Some("PJ0"),
        16 => Some("PH1"),
        17 => Some("PH0"),
        18 => Some("PD3"),
        19 => Some("PD2"),
        20 => Some("PD1"),
        21 => Some("PD0"),
        22 => Some("PA0"),
        23 => Some("PA1"),
        24 => Some("PA2"),
        25 => Some("PA3"),
        26 => Some("PA4"),
        27 => Some("PA5"),
        28 => Some("PA6"),
        29 => Some("PA7"),
        30 => Some("PC7"),
        31 => Some("PC6"),
        32 => Some("PC5"),
        33 => Some("PC4"),
        34 => Some("PC3"),
        35 => Some("PC2"),
        36 => Some("PC1"),
        37 => Some("PC0"),
        38 => Some("PD7"),
        39 => Some("PG2"),
        40 => Some("PG1"),
        41 => Some("PG0"),
        42 => Some("PL7"),
        43 => Some("PL6"),
        44 => Some("PL5"),
        45 => Some("PL4"),
        46 => Some("PL3"),
        47 => Some("PL2"),
        48 => Some("PL1"),
        49 => Some("PL0"),
        50 => Some("PB3"),
        51 => Some("PB2"),
        52 => Some("PB1"),
        53 => Some("PB0"),
        _ => None,
    }
}

/// The ATmega2560 port pin behind a Mega analog pin.
pub open spec fn spec_mega_analog_port(n: u8) -> Option<Seq<char>> {
    match n {
        0 => Some("PF0"@),
        1 => Some("PF1"@),
        2 => Some("PF2"@),
        3 => Some("PF3"@),
        4 => Some("PF4"@),
        5 => Some("PF5"@),
        6 => Some("PF6"@),
        7 => Some("PF7"@),
        8 => Some("PK0"@),
        9 => Some("PK1"@),
        10 => Some("PK2"@),
        11 => Some("PK3"@),
        12 => Some("PK4"@),
        13 => Some("PK5"@),
        14 => Some("PK6"@),
        15 => Some("PK7"@),
        _ => None,
    }
}

fn mega_analog_port(n: u8) -> (r: Option<&'static str>)
    ensures
        match r {
            Some(p) => spec_mega_analog_port(n) == Some(p@),
            None => spec_mega_analog_port(n) is None,
        },
{
    match n {
        0 => Some("PF0"),
        1 => Some("PF1"),
        2 => Some("PF2"),
        3 => Some("PF3"),
        4 => Some("PF4"),
        5 => Some("PF5"),
        6 => Some("PF6"),
        7 => Some("PF7"),
        8 => Some("PK0"),
        9 => Some("PK1"),
        10 => Some("PK2"),
        11 => Some("PK3"),
        12 => Some("PK4"),
        13 => Some("PK5"),
        14 => Some("PK6"),
        15 => Some("PK7"),
        _ => None,
    }
}

/// The ATmega328P port pin behind a Nano digital pin.
pub open spec fn spec_nano_digital_port(n: u8) -> Option<Seq<char>> {
    match n {
        0 => Some("PD0"@),
        1 => Some("PD1"@),
        2 => Some("PD2"@),
        3 => Some("PD3"@),
        4 => Some("PD4"@),
        5 => Some("PD5"@),
        6 => Some("PD6"@),
        7 => Some("PD7"@),
        8 => Some("PB0"@),
        9 => Some("PB1"@),
        10 => Some("PB2"@),
        11 => Some("PB3"@),
        12 => Some("PB4"@),
        13 => Some("PB5"@),
        _ => None,
    }
}

fn nano_digital_port(n: u8) -> (r: Option<&'static str>)
    ensures
        match r {
            Some(p) => spec_nano_digital_port(n) == Some(p@),
            None => spec_nano_digital_port(n) is None,
        },
{
    match n {
        0 => Some("PD0"),
        1 => Some("PD1"),
        2 => Some("PD2"),
        3 => Some("PD3"),
        4 => Some("PD4"),
        5 => Some("PD5"),
        6 => Some("PD6"),
        7 => Some("PD7"),
        8 => Some("PB0"),
        9 => Some("PB1"),
        10 => Some("PB2"),
        11 => Some("PB3"),
        12 => Some("PB4"),
        13 => Some("PB5"),
        _ => None,
    }
}

/// The ATmega328P port pin behind a Nano analog pin.
pub open spec fn spec_nano_analog_port(n: u8) -> Option<Seq<char>> {
    match n {
        0 => Some("PC0"@),
        1 => Some("PC1"@),
        2 => Some("PC2"@),
        3 => Some("PC3"@),
        4 => Some("PC4"@),
        5 => Some("PC5"@),
        _ => None,
    }
}

fn nano_analog_port(n: u8) -> (r: Option<&'static str>)
    ensures
        match r {
            Some(p) => spec_nano_analog_port(n) == Some(p@),
            None => spec_nano_analog_port(n) is None,
        },
{
    match n {
        0 => Some("PC0"),
        1 => Some("PC1"),
        2 => Some("PC2"),
        3 => Some("PC3"),
        4 => Some("PC4"),
        5 => Some("PC5"),
        _ => None,
    }
}

/// The silkscreen label of a Nano pin, and the label as KiCad writes it in
/// a net name (`/` spelled `{slash}`).
pub open spec fn spec_nano_board_label(signal: Seq<char>) -> Option<(Seq<char>, Seq<char>)> {
    if signal == "D0_RX"@ || signal == "D0"@ {
        Some(("D0/RX"@, "D0{slash}RX"@))
    } else if signal == "D1_TX"@ || signal == "D1"@ {
        Some(("D1/TX"@, "D1{slash}TX"@))
    } else if signal == "D10_SS"@ || signal == "D10"@ {
        Some(("D10/SS"@, "D10{slash}SS"@))
    } else if signal == "D11_MOSI"@ || signal == "D11"@ {
        Some(("D11/MOSI"@, "D11{slash}MOSI"@))
    } else if signal == "D12_MISO"@ || signal == "D12"@ {
        Some(("D12/MISO"@, "D12{slash}MISO"@))
    } else if signal == "D13_SCK"@ || signal == "D13"@ {
        Some(("D13/SCK"@, "D13{slash}SCK"@))
    } else if signal == "A4_SDA"@ || signal == "A4"@ {
        Some(("A4/SDA"@, "A4{slash}SDA"@))
    } else if signal == "A5_SCL"@ || signal == "A5"@ {
        Some(("A5/SCL"@, "A5{slash}SCL"@))
    } else {
        None
    }
}

fn nano_board_label(s: &Vec<char>) -> (r: Option<(&'static str, &'static str)>)
    ensures
        match r {
            Some((l, k)) => spec_nano_board_label(s@) == Some((l@, k@)),
            None => spec_nano_board_label(s@) is None,
        },
{
    if is(s, "D0_RX") || is(s, "D0") {
        return Some(("D0/RX", "D0{slash}RX"));
    }
    if is(s, "D1_TX") || is(s, "D1") {
        return Some(("D1/TX", "D1{slash}TX"));
    }
    if is(s, "D10_SS") || is(s, "D10") {
        return Some(("D10/SS", "D10{slash}SS"));
    }
    if is(s, "D11_MOSI") || is(s, "D11") {
        return Some(("D11/MOSI", "D11{slash}MOSI"));
    }
    if is(s, "D12_MISO") || is(s, "D12") {
        return Some(("D12/MISO", "D12{slash}MISO"));
    }
    if is(s, "D13_SCK") || is(s, "D13") {
        return Some(("D13/SCK", "D13{slash}SCK"));
    }
    if is(s, "A4_SDA") || is(s, "A4") {
        return Some(("A4/SDA", "A4{slash}SDA"));
    }
    if is(s, "A5_SCL") || is(s, "A5") {
        return Some(("A5/SCL", "A5{slash}SCL"));
    }
    None
}

/// `port` as it stands and as a hierarchical net name.
pub open spec fn spec_port_alias_pair(port: Seq<char>) -> Seq<Seq<char>> {
    seq![port, "/"@ + port]
}

fn push_port_alias(aliases: &mut Vec<String>, port: &str)
    ensures
        views(final(aliases)@) == views(old(aliases)@) + spec_port_alias_pair(port@),
{
    let ghost before = views(aliases@);
    aliases.push(owned(port));
    aliases.push(concat2("/", port));
    assert(views(aliases@) =~= before + spec_port_alias_pair(port@));
}

pub open spec fn spec_table_aliases(entry: Option<Seq<char>>) -> Seq<Seq<char>> {
    match entry {
        Some(p) => spec_port_alias_pair(p),
        None => Seq::empty(),
    }
}

/// The MCU port pins a controller signal is wired to, as net names.
pub open spec fn spec_port_aliases(board: HostBoard, signal: Seq<char>) -> Seq<Seq<char>> {
    let d = spec_signal_number(signal, 'D');
    let a = spec_signal_number(signal, 'A');
    match board {
        HostBoard::Mega2560Rev3 => spec_table_aliases(
            match d {
                Some(n) => spec_mega_digital_port(n),
                None => None,
            },
        ) + spec_table_aliases(
            match a {
                Some(n) => spec_mega_analog_port(n),
                None => None,
            },
        ),
        HostBoard::NanoV3 => spec_table_aliases(
            match d {
                Some(n) => spec_nano_digital_port(n),
                None => None,
            },
        ) + spec_table_aliases(
            match a {
                Some(n) => spec_nano_analog_port(n),
                None => None,
            },
        ),
    }
}

pub fn controller_port_aliases(board: HostBoard, signal: &str) -> (r: Vec<String>)
    ensures
        views(r@) == spec_port_aliases(board, signal@),
{
    let mut aliases: Vec<String> = Vec::new();
    let d = parse_board_signal_number(signal, 'D');
    let a = parse_board_signal_number(signal, 'A');
    let digital = match d {
        Some(n) => match board {
            HostBoard::Mega2560Rev3 => mega_digital_port(n),
            HostBoard::NanoV3 => nano_digital_port(n),
        },
        None => None,
    };
    match digital {
        Some(port) => push_port_alias(&mut aliases, port),
        None => {},
    }
    let analog = match a {
        Some(n) => match board {
            HostBoard::Mega2560Rev3 => mega_analog_port(n),
            HostBoard::NanoV3 => nano_analog_port(n),
        },
        None => None,
    };
    match analog {
        Some(port) => push_port_alias(&mut aliases, port),
        None => {},
    }
    assert(views(aliases@) =~= spec_port_aliases(board, signal@));
    aliases
}

/// Net names a Nano's silkscreen label gives a signal.
pub open spec fn spec_label_aliases(board: HostBoard, signal: Seq<char>) -> Seq<Seq<char>> {
    match board {
        HostBoard::Mega2560Rev3 => Seq::empty(),
        HostBoard::NanoV3 => match spec_nano_board_label(signal) {
            Some((label, escaped)) => seq![label, "/"@ + label, "/"@ + escaped],
            None => Seq::empty(),
        },
    }
}

pub fn controller_board_label_aliases(board: HostBoard, signal: &str) -> (r: Vec<String>)
    ensures
        views(r@) == spec_label_aliases(board, signal@),
{
    let mut aliases: Vec<String> = Vec::new();
    match board {
        HostBoard::Mega2560Rev3 => {},
        HostBoard::NanoV3 => {
            let s = chars_of(signal);
            match nano_board_label(&s) {
                Some((label, escaped)) => {
                    aliases.push(owned(label));
                    aliases.push(concat2("/", label));
                    aliases.push(concat2("/", escaped));
                },
                None => {},
            }
        },
    }
    assert(views(aliases@) =~= spec_label_aliases(board, signal@));
    aliases
}

/// The ADC channel name of an analog signal such as `A10`.
pub open spec fn spec_analog_channel_alias(signal: Seq<char>) -> Option<Seq<char>> {
    match spec_signal_number(signal, 'A') {
        Some(n) => Some("ADC"@ + spec_decimal(n as nat)),
        None => None,
    }
}

pub fn analog_channel_alias(signal: &str) -> (r: Option<String>)
    ensures
        match r {
            Some(s) => spec_analog_channel_alias(signal@) == Some(s@),
            None => spec_analog_channel_alias(signal@) is None,
        },
{
    match parse_board_signal_number(signal, 'A') {
        Some(n) => {
            let digits = string_of(&decimal(n as u64));
            Some(concat2("ADC", digits.as_str()))
        },
        None => None,
    }
}

/// Every alias of a controller signal: port pins, board labels and the ADC
/// channel (bare and hierarchical).
pub open spec fn spec_controller_signal_aliases(board: HostBoard, signal: Seq<char>) -> Seq<
    Seq<char>,
> {
    spec_port_aliases(board, signal) + spec_label_aliases(board, signal) + match spec_analog_channel_alias(
        signal,
    ) {
        Some(adc) => seq![adc, "/"@ + adc],
        None => Seq::empty(),
    }
}

pub fn controller_signal_aliases(board: HostBoard, signal: &str) -> (r: Vec<String>)
    ensures
        views(r@) == spec_controller_signal_aliases(board, signal@),
{
    let mut aliases = controller_port_aliases(board, signal);
    let ghost ports = views(aliases@);
    let mut labels = controller_board_label_aliases(board, signal);
    aliases.append(&mut labels);
    assert(views(aliases@) =~= ports + spec_label_aliases(board, signal@));
    let ghost so_far = views(aliases@);
    match analog_channel_alias(signal) {
        Some(adc) => {
            let slashed = concat2("/", adc.as_str());
            aliases.push(adc);
            aliases.push(slashed);
        },
        None => {},
    }
    assert(views(aliases@) =~= spec_controller_signal_aliases(board, signal@));
    aliases
}

// ---------------------------------------------------------------------------
// Candidate net names for a controller signal
// ---------------------------------------------------------------------------

/// `acc` with `x` appended unless already there.
pub open spec fn push_unique(acc: Seq<Seq<char>>, x: Seq<char>) -> Seq<Seq<char>> {
    if acc.contains(x) {
        acc
    } else {
        acc.push(x)
    }
}

/// `xs` with later repetitions removed.
pub open spec fn dedup(xs: Seq<Seq<char>>) -> Seq<Seq<char>>
    decreases xs.len(),
{
    if xs.len() == 0 {
        Seq::empty()
    } else {
        push_unique(dedup(xs.drop_last()), xs.last())
    }
}

/// The strings with later repetitions removed.
pub fn dedup_strings(xs: &[String]) -> (r: Vec<String>)
    ensures
        views(r@) == dedup(views(xs@)),
{
    let mut out: Vec<String> = Vec::new();
    let mut i: usize = 0;
    while i < xs.len()
        invariant
            i <= xs@.len(),
            views(out@) == dedup(views(xs@.take(i as int))),
        decreases xs.len() - i,
    {
        assert(views(xs@.take(i + 1)).drop_last() =~= views(xs@.take(i as int)));
        assert(views(xs@.take(i + 1)).last() == xs@[i as int]@);
        let ghost before = views(out@);
        if !contains_str(out.as_slice(), xs[i].as_str()) {
            out.push(xs[i].clone());
            assert(views(out@) =~= before.push(xs@[i as int]@));
        }
        i = i + 1;
    }
    assert(xs@.take(xs@.len() as int) =~= xs@);
    out
}

/// `/n` and `/*n` for a digital signal `Dn...`.
pub open spec fn spec_digital_header_aliases(signal: Seq<char>) -> Seq<Seq<char>> {
    if signal.len() > 0 && signal[0] == 'D' {
        let digits = spec_before_char(signal.drop_first(), '_');
        if digits.len() > 0 && spec_all_digits(digits) {
            seq!["/"@ + digits, "/*"@ + digits]
        } else {
            Seq::empty()
        }
    } else {
        Seq::empty()
    }
}

/// `An` and `/An` for an analog signal `An`.
pub open spec fn spec_analog_header_aliases(signal: Seq<char>) -> Seq<Seq<char>> {
    if signal.len() > 0 && signal[0] == 'A' {
        let digits = signal.drop_first();
        if digits.len() > 0 && spec_all_digits(digits) {
            seq!["A"@ + digits, "/A"@ + digits]
        } else {
            Seq::empty()
        }
    } else {
        Seq::empty()
    }
}

/// The net names a controller signal may carry on a PCB, each once, in the
/// order: the signal, header numbers, port pins, labels, ADC channel.
pub open spec fn spec_candidate_pcb_nets(board: HostBoard, signal: Seq<char>) -> Seq<Seq<char>> {
    dedup(
        seq![signal] + spec_digital_header_aliases(signal) + spec_analog_header_aliases(signal)
            + spec_controller_signal_aliases(board, signal),
    )
}

pub fn candidate_pcb_nets(board: HostBoard, signal: &str) -> (r: Vec<String>)
    ensures
        views(r@) == spec_candidate_pcb_nets(board, signal@),
{
    let s = chars_of(signal);
    let mut raw: Vec<String> = Vec::new();
    raw.push(owned(signal));
    if s.len() > 0 && s[0] == 'D' {
        let rest = slice(&s, 1, s.len());
        assert(rest@ =~= s@.drop_first());
        let digits = before_char(&rest, '_');
        if digits.len() > 0 && all_digits(&digits) {
            let number = string_of(&digits);
            raw.push(concat2("/", number.as_str()));
            raw.push(concat2("/*", number.as_str()));
        }
    }
    assert(views(raw@) =~= seq![signal@] + spec_digital_header_aliases(signal@));
    let ghost so_far = views(raw@);
    if s.len() > 0 && s[0] == 'A' {
        let digits = slice(&s, 1, s.len());
        assert(digits@ =~= s@.drop_first());
        if digits.len() > 0 && all_digits(&digits) {
            let number = string_of(&digits);
            raw.push(concat2("A", number.as_str()));
            raw.push(concat2("/A", number.as_str()));
        }
    }
    assert(views(raw@) =~= so_far + spec_analog_header_aliases(signal@));
    let ghost with_headers = views(raw@);
    let mut aliases = controller_signal_aliases(board, signal);
    raw.append(&mut aliases);
    assert(views(raw@) =~= with_headers + spec_controller_signal_aliases(board, signal@));
    dedup_strings(raw.as_slice())
}

// ---------------------------------------------------------------------------
// Tokens of net and signal names
// ---------------------------------------------------------------------------

/// The state after scanning `s`: finished tokens, the token being read,
/// and whether that token is made of letters (`None` after a separator).
pub open spec fn tok_fold(s: Seq<char>) -> (Seq<Seq<char>>, Seq<char>, Option<bool>)
    decreases s.len(),
{
    if s.len() == 0 {
        (Seq::empty(), Seq::empty(), None)
    } else {
        let prev = tok_fold(s.drop_last());
        let c = s.last();
        if spec_is_alnum(c) {
            let alpha = spec_is_alpha(c);
            let split = (prev.2 matches Some(p) && p != alpha) && prev.1.len() > 0;
            let toks = if split {
                prev.0.push(prev.1)
            } else {
                prev.0
            };
            let cur = if split {
                Seq::empty()
            } else {
                prev.1
            };
            (toks, cur.push(spec_upper(c)), Some(alpha))
        } else {
            (
                if prev.1.len() > 0 {
                    prev.0.push(prev.1)
                } else {
                    prev.0
                },
                Seq::empty(),
                None,
            )
        }
    }
}

/// The upper-cased runs of letters and of digits in a name.
pub open spec fn spec_split_tokens(s: Seq<char>) -> Seq<Seq<char>> {
    let st = tok_fold(s);
    if st.1.len() > 0 {
        st.0.push(st.1)
    } else {
        st.0
    }
}

pub fn split_match_tokens(value: &Vec<char>) -> (r: Vec<Vec<char>>)
    ensures
        cviews(r@) == spec_split_tokens(value@),
{
    let mut tokens: Vec<Vec<char>> = Vec::new();
    let mut current: Vec<char> = Vec::new();
    let mut current_is_alpha: Option<bool> = None;
    let mut i: usize = 0;
    while i < value.len()
        invariant
            i <= value@.len(),
            (cviews(tokens@), current@, current_is_alpha) == tok_fold(value@.take(i as int)),
        decreases value.len() - i,
    {
        assert(value@.take(i + 1).drop_last() =~= value@.take(i as int));
        let c = value[i];
        let ghost toks0 = cviews(tokens@);
        let ghost cur0 = current@;
        if is_alnum(c) {
            let alpha = is_alpha(c);
            let split = match current_is_alpha {
                Some(p) => p != alpha,
                None => false,
            } && current.len() > 0;
            if split {
                let finished = current;
                tokens.push(finished);
                current = Vec::new();
                assert(cviews(tokens@) =~= toks0.push(cur0));
            }
            current.push(to_upper(c));
            current_is_alpha = Some(alpha);
        } else {
            if current.len() > 0 {
                let finished = current;
                tokens.push(finished);
                current = Vec::new();
                assert(cviews(tokens@) =~= toks0.push(cur0));
            }
            current_is_alpha = None;
        }
        i = i + 1;
    }
    assert(value@.take(value@.len() as int) =~= value@);
    if current.len() > 0 {
        let ghost toks0 = cviews(tokens@);
        let ghost cur0 = current@;
        tokens.push(current);
        assert(cviews(tokens@) =~= toks0.push(cur0));
    }
    tokens
}

/// Role words with their common synonyms folded together.
pub open spec fn spec_normalize_token(t: Seq<char>) -> Seq<char> {
    if t == "SS"@ {
        "CS"@
    } else if t == "CLK"@ {
        "SCK"@
    } else if t == "SDI"@ || t == "SI"@ {
        "MOSI"@
    } else if t == "SDO"@ || t == "SO"@ {
        "MISO"@
    } else if t == "IRQ"@ {
        "INT"@
    } else if t == "GROUND"@ || t == "GRND"@ || t == "VSS"@ {
        "GND"@
    } else if t == "VDD"@ {
        "VCC"@
    } else {
        t
    }
}

pub fn normalize_match_token(t: &Vec<char>) -> (r: Vec<char>)
    ensures
        r@ == spec_normalize_token(t@),
{
    if is(t, "SS") {
        chars_of("CS")
    } else if is(t, "CLK") {
        chars_of("SCK")
    } else if is(t, "SDI") || is(t, "SI") {
        chars_of("MOSI")
    } else if is(t, "SDO") || is(t, "SO") {
        chars_of("MISO")
    } else if is(t, "IRQ") {
        chars_of("INT")
    } else if is(t, "GROUND") || is(t, "GRND") || is(t, "VSS") {
        chars_of("GND")
    } else if is(t, "VDD") {
        chars_of("VCC")
    } else {
        t.clone()
    }
}

/// Words that say nothing about a net's role.
pub open spec fn spec_is_noise_token(t: Seq<char>) -> bool {
    t == "D"@ || t == "A"@ || t == "GPIO"@ || t == "IO"@ || t == "PIN"@ || t == "PAD"@ || t
        == "NET"@ || t == "SIG"@ || t == "SIGNAL"@ || t == "PORT"@
}

pub fn is_noise_match_token(t: &Vec<char>) -> (r: bool)
    ensures
        r == spec_is_noise_token(t@),
{
    is(t, "D") || is(t, "A") || is(t, "GPIO") || is(t, "IO") || is(t, "PIN") || is(t, "PAD")
        || is(t, "NET") || is(t, "SIG") || is(t, "SIGNAL") || is(t, "PORT")
}

/// The role tokens of a list of raw tokens: normalised, noise dropped.
pub open spec fn keep_role_tokens(toks: Seq<Seq<char>>) -> Seq<Seq<char>>
    decreases toks.len(),
{
    if toks.len() == 0 {
        Seq::empty()
    } else {
        let t = spec_normalize_token(toks.last());
        let rest = keep_role_tokens(toks.drop_last());
        if t.len() > 0 && !spec_is_noise_token(t) {
            rest.push(t)
        } else {
            rest
        }
    }
}

/// The role tokens of a name (as a list; its members are what count).
pub open spec fn spec_match_tokens(value: Seq<char>) -> Seq<Seq<char>> {
    keep_role_tokens(spec_split_tokens(value))
}

pub fn match_tokens(value: &Vec<char>) -> (r: Vec<Vec<char>>)
    ensures
        cviews(r@) == spec_match_tokens(value@),
{
    let toks = split_match_tokens(value);
    let mut out: Vec<Vec<char>> = Vec::new();
    let mut i: usize = 0;
    while i < toks.len()
        invariant
            i <= toks@.len(),
            cviews(out@) == keep_role_tokens(cviews(toks@.take(i as int))),
        decreases toks.len() - i,
    {
        assert(cviews(toks@.take(i + 1)).drop_last() =~= cviews(toks@.take(i as int)));
        assert(cviews(toks@.take(i + 1)).last() == toks@[i as int]@);
        let t = normalize_match_token(&toks[i]);
        let ghost before = cviews(out@);
        if t.len() > 0 && !is_noise_match_token(&t) {
            out.push(t);
            assert(cviews(out@) =~= before.push(spec_normalize_token(toks@[i as int]@)));
        }
        i = i + 1;
    }
    assert(toks@.take(toks@.len() as int) =~= toks@);
    out
}

/// The role tokens of all candidates, each once.
pub open spec fn candidate_tokens(cands: Seq<Seq<char>>) -> Seq<Seq<char>>
    decreases cands.len(),
{
    if cands.len() == 0 {
        Seq::empty()
    } else {
        candidate_tokens(cands.drop_last()) + spec_match_tokens(cands.last())
    }
}

pub open spec fn dedup_chars(xs: Seq<Seq<char>>) -> Seq<Seq<char>> {
    dedup(xs)
}

fn contains_chars(v: &Vec<Vec<char>>, x: &Vec<char>) -> (r: bool)
    ensures
        r == cviews(v@).contains(x@),
{
    let mut i: usize = 0;
    while i < v.len()
        invariant
            i <= v@.len(),
            forall|j: int| 0 <= j < i ==> v@[j]@ != x@,
        decreases v.len() - i,
    {
        if chars_eq(&v[i], x) {
            assert(cviews(v@)[i as int] == x@);
            return true;
        }
        i = i + 1;
    }
    assert(!cviews(v@).contains(x@)) by {
        if cviews(v@).contains(x@) {
            let j = choose|j: int| 0 <= j < cviews(v@).len() && cviews(v@)[j] == x@;
            assert(v@[j]@ == x@);
        }
    }
    false
}

/// The distinct role tokens of all candidates.
pub fn collect_match_tokens(candidates: &[String]) -> (r: Vec<Vec<char>>)
    ensures
        cviews(r@) == dedup(candidate_tokens(views(candidates@))),
{
    let mut all: Vec<Vec<char>> = Vec::new();
    let mut i: usize = 0;
    while i < candidates.len()
        invariant
            i <= candidates@.len(),
            cviews(all@) == candidate_tokens(views(candidates@.take(i as int))),
        decreases candidates.len() - i,
    {
        assert(views(candidates@.take(i + 1)).drop_last() =~= views(candidates@.take(i as int)));
        assert(views(candidates@.take(i + 1)).last() == candidates@[i as int]@);
        let c = chars_of(candidates[i].as_str());
        let mut toks = match_tokens(&c);
        let ghost before = cviews(all@);
        let ghost added = cviews(toks@);
        all.append(&mut toks);
        assert(cviews(all@) =~= before + added);
        i = i + 1;
    }
    assert(candidates@.take(candidates@.len() as int) =~= candidates@);
    let mut out: Vec<Vec<char>> = Vec::new();
    let mut k: usize = 0;
    while k < all.len()
        invariant
            k <= all@.len(),
            cviews(out@) == dedup(cviews(all@.take(k as int))),
        decreases all.len() - k,
    {
        assert(cviews(all@.take(k + 1)).drop_last() =~= cviews(all@.take(k as int)));
        assert(cviews(all@.take(k + 1)).last() == all@[k as int]@);
        let ghost before = cviews(out@);
        if !contains_chars(&out, &all[k]) {
            out.push(all[k].clone());
            assert(cviews(out@) =~= before.push(all@[k as int]@));
        }
        k = k + 1;
    }
    assert(all@.take(all@.len() as int) =~= all@);
    out
}

/// How many distinct candidate tokens that are not plain numbers the net
/// also has.
pub open spec fn count_shared(cand: Seq<Seq<char>>, net: Seq<Seq<char>>) -> nat
    decreases cand.len(),
{
    if cand.len() == 0 {
        0
    } else {
        count_shared(cand.drop_last(), net) + if !spec_all_digits(cand.last()) && net.contains(
            cand.last(),
        ) {
            1nat
        } else {
            0nat
        }
    }
}

fn shared_role_count(cand: &Vec<Vec<char>>, net: &Vec<Vec<char>>) -> (r: usize)
    ensures
        r == count_shared(cviews(cand@), cviews(net@)),
{
    let mut n: usize = 0;
    let mut i: usize = 0;
    while i < cand.len()
        invariant
            i <= cand@.len(),
            n == count_shared(cviews(cand@.take(i as int)), cviews(net@)),
            n <= i,
        decreases cand.len() - i,
    {
        assert(cviews(cand@.take(i + 1)).drop_last() =~= cviews(cand@.take(i as int)));
        assert(cviews(cand@.take(i + 1)).last() == cand@[i as int]@);
        if !all_digits(&cand[i]) && contains_chars(net, &cand[i]) {
            n = n + 1;
        }
        i = i + 1;
    }
    assert(cand@.take(cand@.len() as int) =~= cand@);
    n
}

// ---------------------------------------------------------------------------
// Canonical names
// ---------------------------------------------------------------------------

pub open spec fn slash_marker() -> Seq<char> {
    seq!['{', 'S', 'L', 'A', 'S', 'H', '}']
}

/// `s` with every `{SLASH}` (left to right, not overlapping) turned into `_`.
pub open spec fn replace_slash_marker(s: Seq<char>) -> Seq<char>
    decreases s.len(),
{
    if s.len() == 0 {
        s
    } else if spec_starts_with(s, slash_marker()) {
        seq!['_'] + replace_slash_marker(s.skip(7))
    } else {
        seq![s[0]] + replace_slash_marker(s.drop_first())
    }
}

/// Runs of characters other than ASCII letters and digits become one `_`;
/// the flag tells whether the text ends in such a run.
pub open spec fn collapse_separators(s: Seq<char>) -> (Seq<char>, bool)
    decreases s.len(),
{
    if s.len() == 0 {
        (Seq::empty(), false)
    } else {
        let p = collapse_separators(s.drop_last());
        let c = s.last();
        if spec_is_alnum(c) {
            (p.0.push(c), false)
        } else if !p.1 {
            (p.0.push('_'), true)
        } else {
            p
        }
    }
}

pub open spec fn trim_underscores_start(s: Seq<char>) -> Seq<char>
    decreases s.len(),
{
    if s.len() > 0 && s[0] == '_' {
        trim_underscores_start(s.drop_first())
    } else {
        s
    }
}

pub open spec fn trim_underscores_end(s: Seq<char>) -> Seq<char>
    decreases s.len(),
{
    if s.len() > 0 && s.last() == '_' {
        trim_underscores_end(s.drop_last())
    } else {
        s
    }
}

/// A name reduced to upper-case letters and digits separated by single
/// `_`, with KiCad's `{slash}` read as a separator.
pub open spec fn spec_canonical(value: Seq<char>) -> Seq<char> {
    trim_underscores_end(
        trim_underscores_start(collapse_separators(replace_slash_marker(spec_upper_seq(value))).0),
    )
}

fn replace_marker(s: &Vec<char>) -> (r: Vec<char>)
    ensures
        r@ == replace_slash_marker(s@),
{
    proof {
        reveal_strlit("{SLASH}");
    }
    let marker = chars_of("{SLASH}");
    assert(marker@ =~= slash_marker());
    let mut out: Vec<char> = Vec::new();
    let mut i: usize = 0;
    assert(s@.skip(0) =~= s@);
    while i < s.len()
        invariant
            marker@ == slash_marker(),
            i <= s@.len(),
            out@ + replace_slash_marker(s@.skip(i as int)) == replace_slash_marker(s@),
        decreases s.len() - i,
    {
        let ghost rest = s@.skip(i as int);
        if occurs_at(s, &marker, i) {
            assert(rest.subrange(0, 7) =~= s@.subrange(i as int, i + 7));
            assert(spec_starts_with(rest, slash_marker()));
            assert(rest.skip(7) =~= s@.skip(i + 7));
            out.push('_');
            assert(out@ + replace_slash_marker(s@.skip(i + 7)) =~= replace_slash_marker(s@));
            i = i + 7;
        } else {
            assert(!spec_starts_with(rest, slash_marker())) by {
                if spec_starts_with(rest, slash_marker()) {
                    assert(rest.subrange(0, 7) =~= s@.subrange(i as int, i + 7));
                }
            }
            assert(rest.drop_first() =~= s@.skip(i + 1));
            out.push(s[i]);
            assert(out@ + replace_slash_marker(s@.skip(i + 1)) =~= replace_slash_marker(s@));
            i = i + 1;
        }
    }
    assert(s@.skip(i as int) =~= Seq::<char>::empty());
    assert(out@ =~= out@ + Seq::<char>::empty());
    out
}

pub fn canonical_signal_name(value: &Vec<char>) -> (r: Vec<char>)
    ensures
        r@ == spec_canonical(value@),
{
    let up = upper(value);
    let replaced = replace_marker(&up);
    let mut collapsed: Vec<char> = Vec::new();
    let mut last_was_sep = false;
    let mut i: usize = 0;
    while i < replaced.len()
        invariant
            i <= replaced@.len(),
            (collapsed@, last_was_sep) == collapse_separators(replaced@.take(i as int)),
        decreases replaced.len() - i,
    {
        assert(replaced@.take(i + 1).drop_last() =~= replaced@.take(i as int));
        let c = replaced[i];
        if is_alnum(c) {
            collapsed.push(c);
            last_was_sep = false;
        } else if !last_was_sep {
            collapsed.push('_');
            last_was_sep = true;
        }
        i = i + 1;
    }
    assert(replaced@.take(replaced@.len() as int) =~= replaced@);
    let ghost full = collapsed@;
    let mut start: usize = 0;
    assert(full.skip(0) =~= full);
    while start < collapsed.len() && collapsed[start] == '_'
        invariant
            full == collapsed@,
            start <= full.len(),
            trim_underscores_start(full) == trim_underscores_start(full.skip(start as int)),
        decreases collapsed.len() - start,
    {
        assert(full.skip(start as int).drop_first() =~= full.skip(start + 1));
        start = start + 1;
    }
    let ghost head = full.skip(start as int);
    assert(trim_underscores_start(full) == head);
    let mut end: usize = collapsed.len();
    assert(head.take(head.len() as int) =~= head);
    while end > start && collapsed[end - 1] == '_'
        invariant
            full == collapsed@,
            head == full.skip(start as int),
            start <= end <= full.len(),
            trim_underscores_end(head) == trim_underscores_end(head.take(end - start)),
        decreases end,
    {
        assert(head.take(end - start).drop_last() =~= head.take(end - start - 1));
        end = end - 1;
    }
    let r = slice(&collapsed, start, end);
    assert(r@ =~= head.take(end - start));
    r
}

// ---------------------------------------------------------------------------
// Pin numbers found in names
// ---------------------------------------------------------------------------

/// What the token before a number says the number is.
#[derive(Debug, Clone, Copy, PartialEq, Eq, Structural)]
pub enum NumericHintKind {
    Unknown,
    Digital,
    Analog,
}

pub open spec fn spec_hint_kind(prev: Option<Seq<char>>) -> NumericHintKind {
    match prev {
        Some(p) => if p == "A"@ || p == "ADC"@ || p == "AN"@ {
            NumericHintKind::Analog
        } else if p == "D"@ || p == "GPIO"@ || p == "IO"@ || p == "PIN"@ {
            NumericHintKind::Digital
        } else {
            NumericHintKind::Unknown
        },
        None => NumericHintKind::Unknown,
    }
}

/// Each number token among the first `n` tokens, with the kind the token
/// before it gives.
pub open spec fn hints_upto(toks: Seq<Seq<char>>, n: int) -> Seq<(Seq<char>, NumericHintKind)>
    decreases n,
{
    if n <= 0 || n > toks.len() {
        Seq::empty()
    } else {
        let rest = hints_upto(toks, n - 1);
        let t = toks[n - 1];
        if spec_all_digits(t) {
            rest.push(
                (
                    t,
                    spec_hint_kind(
                        if n - 1 > 0 {
                            Some(spec_normalize_token(toks[n - 2]))
                        } else {
                            None
                        },
                    ),
                ),
            )
        } else {
            rest
        }
    }
}

pub open spec fn spec_number_hints(value: Seq<char>) -> Seq<(Seq<char>, NumericHintKind)> {
    let toks = spec_split_tokens(value);
    hints_upto(toks, toks.len() as int)
}

pub open spec fn hview(h: (Vec<char>, NumericHintKind)) -> (Seq<char>, NumericHintKind) {
    (h.0@, h.1)
}

pub open spec fn hviews(v: Seq<(Vec<char>, NumericHintKind)>) -> Seq<(Seq<char>, NumericHintKind)> {
    v.map_values(|h: (Vec<char>, NumericHintKind)| hview(h))
}

fn hint_kind(prev: &Vec<char>) -> (r: NumericHintKind)
    ensures
        r == spec_hint_kind(Some(prev@)),
{
    if is(prev, "A") || is(prev, "ADC") || is(prev, "AN") {
        NumericHintKind::Analog
    } else if is(prev, "D") || is(prev, "GPIO") || is(prev, "IO") || is(prev, "PIN") {
        NumericHintKind::Digital
    } else {
        NumericHintKind::Unknown
    }
}

/// Appends the number hints of a name to `out`.
pub fn extract_number_hints(value: &Vec<char>, out: &mut Vec<(Vec<char>, NumericHintKind)>)
    ensures
        hviews(final(out)@) == hviews(old(out)@) + spec_number_hints(value@),
{
    let toks = split_match_tokens(value);
    let ghost tv = cviews(toks@);
    let ghost start = hviews(out@);
    let mut i: usize = 0;
    while i < toks.len()
        invariant
            tv == cviews(toks@),
            i <= toks@.len(),
            hviews(out@) == start + hints_upto(tv, i as int),
        decreases toks.len() - i,
    {
        let ghost before = hviews(out@);
        if all_digits(&toks[i]) {
            let kind = if i > 0 {
                let prev = normalize_match_token(&toks[i - 1]);
                hint_kind(&prev)
            } else {
                NumericHintKind::Unknown
            };
            out.push((toks[i].clone(), kind));
            assert(hviews(out@) =~= before.push((tv[i as int], kind)));
        }
        i = i + 1;
    }
}

/// The number hints of a signal followed by those of each candidate.
pub open spec fn candidate_hints(signal: Seq<char>, cands: Seq<Seq<char>>) -> Seq<
    (Seq<char>, NumericHintKind),
>
    decreases cands.len(),
{
    if cands.len() == 0 {
        spec_number_hints(signal)
    } else {
        candidate_hints(signal, cands.drop_last()) + spec_number_hints(cands.last())
    }
}

pub fn collect_number_hints(signal: &Vec<char>, candidates: &[String]) -> (r: Vec<
    (Vec<char>, NumericHintKind),
>)
    ensures
        hviews(r@) == candidate_hints(signal@, views(candidates@)),
{
    let mut out: Vec<(Vec<char>, NumericHintKind)> = Vec::new();
    extract_number_hints(signal, &mut out);
    assert(hviews(out@) =~= spec_number_hints(signal@));
    let mut i: usize = 0;
    while i < candidates.len()
        invariant
            i <= candidates@.len(),
            hviews(out@) == candidate_hints(signal@, views(candidates@.take(i as int))),
        decreases candidates.len() - i,
    {
        assert(views(candidates@.take(i + 1)).drop_last() =~= views(candidates@.take(i as int)));
        assert(views(candidates@.take(i + 1)).last() == candidates@[i as int]@);
        let c = chars_of(candidates[i].as_str());
        extract_number_hints(&c, &mut out);
        i = i + 1;
    }
    assert(candidates@.take(candidates@.len() as int) =~= candidates@);
    out
}

/// Points for a shared number given the kinds on both sides.
pub open spec fn pair_points(c: NumericHintKind, n: NumericHintKind) -> int {
    if c == n && c != NumericHintKind::Unknown {
        320
    } else if c == NumericHintKind::Unknown && n == NumericHintKind::Unknown {
        220
    } else if c == NumericHintKind::Unknown || n == NumericHintKind::Unknown {
        260
    } else {
        0
    }
}

pub open spec fn max_int(a: int, b: int) -> int {
    if a >= b {
        a
    } else {
        b
    }
}

pub open spec fn best_against(c: (Seq<char>, NumericHintKind), nets: Seq<(Seq<char>, NumericHintKind)>) -> int
    decreases nets.len(),
{
    if nets.len() == 0 {
        0
    } else {
        let rest = best_against(c, nets.drop_last());
        if nets.last().0 == c.0 {
            max_int(rest, pair_points(c.1, nets.last().1))
        } else {
            rest
        }
    }
}

/// The best points any candidate number earns against a net number.
pub open spec fn best_number_points(
    cands: Seq<(Seq<char>, NumericHintKind)>,
    nets: Seq<(Seq<char>, NumericHintKind)>,
) -> int
    decreases cands.len(),
{
    if cands.len() == 0 {
        0
    } else {
        max_int(best_number_points(cands.drop_last(), nets), best_against(cands.last(), nets))
    }
}

pub proof fn lemma_best_against_bounds(c: (Seq<char>, NumericHintKind), nets: Seq<(Seq<char>, NumericHintKind)>)
    ensures
        0 <= best_against(c, nets) <= 320,
    decreases nets.len(),
{
    if nets.len() > 0 {
        lemma_best_against_bounds(c, nets.drop_last());
    }
}

pub proof fn lemma_best_number_points_bounds(
    cands: Seq<(Seq<char>, NumericHintKind)>,
    nets: Seq<(Seq<char>, NumericHintKind)>,
)
    ensures
        0 <= best_number_points(cands, nets) <= 320,
    decreases cands.len(),
{
    if cands.len() > 0 {
        lemma_best_number_points_bounds(cands.drop_last(), nets);
        lemma_best_against_bounds(cands.last(), nets);
    }
}

fn points_for(c: NumericHintKind, n: NumericHintKind) -> (r: i32)
    ensures
        r == pair_points(c, n),
{
    if c == n && c != NumericHintKind::Unknown {
        320
    } else if c == NumericHintKind::Unknown && n == NumericHintKind::Unknown {
        220
    } else if c == NumericHintKind::Unknown || n == NumericHintKind::Unknown {
        260
    } else {
        0
    }
}

fn best_points_between(
    cands: &Vec<(Vec<char>, NumericHintKind)>,
    nets: &Vec<(Vec<char>, NumericHintKind)>,
) -> (r: i32)
    ensures
        r == best_number_points(hviews(cands@), hviews(nets@)),
{
    let ghost cv = hviews(cands@);
    let ghost nv = hviews(nets@);
    let mut best: i32 = 0;
    let mut i: usize = 0;
    while i < cands.len()
        invariant
            cv == hviews(cands@),
            nv == hviews(nets@),
            i <= cands@.len(),
            best == best_number_points(cv.take(i as int), nv),
        decreases cands.len() - i,
    {
        assert(cv.take(i + 1).drop_last() =~= cv.take(i as int));
        let ghost c = cv[i as int];
        let mut inner: i32 = 0;
        let mut j: usize = 0;
        while j < nets.len()
            invariant
                cv == hviews(cands@),
                nv == hviews(nets@),
                i < cands@.len(),
                c == cv[i as int],
                j <= nets@.len(),
                inner == best_against(c, nv.take(j as int)),
            decreases nets.len() - j,
        {
            assert(nv.take(j + 1).drop_last() =~= nv.take(j as int));
            proof {
                lemma_best_against_bounds(c, nv.take(j as int));
            }
            if chars_eq(&cands[i].0, &nets[j].0) {
                let p = points_for(cands[i].1, nets[j].1);
                if p > inner {
                    inner = p;
                }
            }
            j = j + 1;
        }
        assert(nv.take(nets@.len() as int) =~= nv);
        proof {
            lemma_best_number_points_bounds(cv.take(i as int), nv);
        }
        if inner > best {
            best = inner;
        }
        i = i + 1;
    }
    assert(cv.take(cands@.len() as int) =~= cv);
    best
}

// ---------------------------------------------------------------------------
// Scoring nets against a signal
// ---------------------------------------------------------------------------

pub open spec fn mode_points(m: BindingMode) -> int {
    match m {
        BindingMode::Power => 120,
        BindingMode::Bus => 100,
        BindingMode::Analog => 90,
        BindingMode::Digital => 60,
        BindingMode::Auto => 0,
    }
}

pub open spec fn upper_all(c: Seq<Seq<char>>) -> Seq<Seq<char>> {
    c.map_values(|x: Seq<char>| spec_upper_seq(x))
}

pub open spec fn canonical_all(c: Seq<Seq<char>>) -> Seq<Seq<char>> {
    c.map_values(|x: Seq<char>| spec_canonical(x))
}

/// Some canonical candidate longer than two characters, not a plain
/// number, occurs in the net's canonical name.
pub open spec fn shares_name(canon: Seq<Seq<char>>, net: Seq<char>) -> bool {
    exists|k: int|
        0 <= k < canon.len() && canon[k].len() > 2 && !spec_all_digits(canon[k]) && spec_contains(
            net,
            #[trigger] canon[k],
        )
}

/// The evidence that `net` carries `signal`, in the order it is weighed:
/// points and the reason they stand for.
pub open spec fn spec_bumps(signal: Seq<char>, cands: Seq<Seq<char>>, net: Seq<char>) -> Seq<
    (int, Seq<char>),
> {
    let exact = upper_all(cands).contains(spec_upper_seq(net));
    let canon = canonical_all(cands);
    let net_canon = spec_canonical(net);
    let overlap = count_shared(dedup(candidate_tokens(cands)), spec_match_tokens(net));
    let numbers = best_number_points(candidate_hints(signal, cands), spec_number_hints(net));
    let signal_mode = spec_infer_binding_mode(signal);
    seq![
        (if exact { 1200int } else { 0int }, "exact alias"@),
        (if canon.contains(net_canon) { 950int } else { 0int }, "normalized name"@),
        (if shares_name(canon, net_canon) { 180int } else { 0int }, "shared name"@),
        ((if overlap < 2 { overlap as int } else { 2int }) * 140, "shared signal role"@),
        (numbers, "pin number"@),
        (if signal_mode == spec_infer_net_binding_mode(net) { mode_points(signal_mode) } else { 0int }, "signal class"@),
    ]
}

/// Total of the positive points, the largest, and the reason of the first
/// piece of evidence that reached it.
pub open spec fn bump_fold(b: Seq<(int, Seq<char>)>) -> (int, int, Seq<char>)
    decreases b.len(),
{
    if b.len() == 0 {
        (0, 0, Seq::empty())
    } else {
        let p = bump_fold(b.drop_last());
        let pts = b.last().0;
        if pts <= 0 {
            p
        } else if pts > p.1 {
            (p.0 + pts, pts, b.last().1)
        } else {
            (p.0 + pts, p.1, p.2)
        }
    }
}

/// A net's score for a signal and the reason reported with it.
pub open spec fn spec_net_score(signal: Seq<char>, cands: Seq<Seq<char>>, net: Seq<char>) -> (
    int,
    Seq<char>,
) {
    let f = bump_fold(spec_bumps(signal, cands, net));
    (f.0, if f.1 == 0 { "heuristic match"@ } else { f.2 })
}

pub open spec fn sview(s: NetSuggestion) -> (Seq<char>, int, Seq<char>) {
    (s.net_name@, s.score as int, s.reason@)
}

pub open spec fn sviews(v: Seq<NetSuggestion>) -> Seq<(Seq<char>, int, Seq<char>)> {
    v.map_values(|s: NetSuggestion| sview(s))
}

/// The nets with a positive score, in the order given.
pub open spec fn scored_nets(signal: Seq<char>, cands: Seq<Seq<char>>, nets: Seq<Seq<char>>) -> Seq<
    (Seq<char>, int, Seq<char>),
>
    decreases nets.len(),
{
    if nets.len() == 0 {
        Seq::empty()
    } else {
        let rest = scored_nets(signal, cands, nets.drop_last());
        let s = spec_net_score(signal, cands, nets.last());
        if s.0 > 0 {
            rest.push((nets.last(), s.0, s.1))
        } else {
            rest
        }
    }
}

/// `x` goes before `y`: a higher score, or the same score and a name that
/// sorts first.
pub open spec fn ranks_before(x: (Seq<char>, int, Seq<char>), y: (Seq<char>, int, Seq<char>)) -> bool {
    x.1 > y.1 || (x.1 == y.1 && chars_lt(x.0, y.0))
}

/// The first position from `k` whose entry `x` ranks before.
pub open spec fn rank_position(r: Seq<(Seq<char>, int, Seq<char>)>, x: (Seq<char>, int, Seq<char>), k: int) -> int
    decreases r.len() - k,
{
    if k < 0 || k >= r.len() {
        r.len() as int
    } else if ranks_before(x, r[k]) {
        k
    } else {
        rank_position(r, x, k + 1)
    }
}

/// Suggestions sorted best first, stably (insertion sort).
pub open spec fn rank_suggestions(s: Seq<(Seq<char>, int, Seq<char>)>) -> Seq<(Seq<char>, int, Seq<char>)>
    decreases s.len(),
{
    if s.len() == 0 {
        Seq::empty()
    } else {
        let r = rank_suggestions(s.drop_last());
        r.insert(rank_position(r, s.last(), 0), s.last())
    }
}

pub open spec fn spec_suggest_pcb_nets(signal: Seq<char>, cands: Seq<Seq<char>>, nets: Seq<Seq<char>>) -> Seq<
    (Seq<char>, int, Seq<char>),
> {
    rank_suggestions(scored_nets(signal, cands, nets))
}

proof fn lemma_rank_position_bounds(r: Seq<(Seq<char>, int, Seq<char>)>, x: (Seq<char>, int, Seq<char>), k: int)
    requires
        0 <= k <= r.len(),
    ensures
        k <= rank_position(r, x, k) <= r.len(),
    decreases r.len() - k,
{
    if k < r.len() && !ranks_before(x, r[k]) {
        lemma_rank_position_bounds(r, x, k + 1);
    }
}

fn bump(score: &mut i32, strongest: &mut i32, reason: &mut &'static str, points: i32, why: &'static str)
    requires
        0 <= *old(score) <= 10000,
        0 <= points <= 2000,
        0 <= *old(strongest) <= 2000,
    ensures
        0 <= *final(strongest) <= 2000,
        points <= 0 ==> *final(score) == *old(score) && *final(strongest) == *old(strongest)
            && *final(reason) == *old(reason),
        points > 0 ==> *final(score) == *old(score) + points,
        points > 0 && points > *old(strongest) ==> *final(strongest) == points && *final(reason)
            == why,
        points > 0 && points <= *old(strongest) ==> *final(strongest) == *old(strongest)
            && *final(reason) == *old(reason),
{
    if points <= 0 {
        return ;
    }
    *score = *score + points;
    if points > *strongest {
        *strongest = points;
        *reason = why;
    }
}

/// The score of `net` for `signal` and its reason.
fn score_net(
    signal: &Vec<char>,
    candidates: &[String],
    upper_cands: &Vec<Vec<char>>,
    canon_cands: &Vec<Vec<char>>,
    cand_tokens: &Vec<Vec<char>>,
    cand_hints: &Vec<(Vec<char>, NumericHintKind)>,
    net: &str,
) -> (r: (i32, &'static str))
    requires
        cviews(upper_cands@) == upper_all(views(candidates@)),
        cviews(canon_cands@) == canonical_all(views(candidates@)),
        cviews(cand_tokens@) == dedup(candidate_tokens(views(candidates@))),
        hviews(cand_hints@) == candidate_hints(signal@, views(candidates@)),
    ensures
        (r.0 as int, r.1@) == spec_net_score(signal@, views(candidates@), net@),
        0 <= r.0 <= 3050,
{
    let ghost b = spec_bumps(signal@, views(candidates@), net@);
    let net_chars = chars_of(net);
    let mut score: i32 = 0;
    let mut strongest: i32 = 0;
    let mut reason: &'static str = "";
    proof {
        reveal_strlit("");
        assert(b.take(0) =~= Seq::<(int, Seq<char>)>::empty());
        assert(reason@ =~= Seq::<char>::empty());
    }
    assert((score as int, strongest as int, reason@) == bump_fold(b.take(0)));
    let net_upper = upper(&net_chars);
    let exact = contains_chars(upper_cands, &net_upper);
    bump(&mut score, &mut strongest, &mut reason, if exact { 1200 } else { 0 }, "exact alias");
    assert(b.take(1).drop_last() =~= b.take(0));
    assert((score as int, strongest as int, reason@) == bump_fold(b.take(1)));
    let net_canon = canonical_signal_name(&net_chars);
    let normalized = contains_chars(canon_cands, &net_canon);
    bump(&mut score, &mut strongest, &mut reason, if normalized { 950 } else { 0 }, "normalized name");
    assert(b.take(2).drop_last() =~= b.take(1));
    assert((score as int, strongest as int, reason@) == bump_fold(b.take(2)));
    let mut shared = false;
    let mut k: usize = 0;
    while k < canon_cands.len()
        invariant
            k <= canon_cands@.len(),
            shared == (exists|j: int|
                0 <= j < k && canon_cands@[j]@.len() > 2 && !spec_all_digits(canon_cands@[j]@)
                    && spec_contains(net_canon@, #[trigger] canon_cands@[j]@)),
        decreases canon_cands.len() - k,
    {
        if canon_cands[k].len() > 2 && !all_digits(&canon_cands[k]) && contains(
            &net_canon,
            &canon_cands[k],
        ) {
            shared = true;
        }
        k = k + 1;
    }
    proof {
        let canon = canonical_all(views(candidates@));
        if shared {
            let j = choose|j: int|
                0 <= j < k && canon_cands@[j]@.len() > 2 && !spec_all_digits(canon_cands@[j]@)
                    && spec_contains(net_canon@, #[trigger] canon_cands@[j]@);
            assert(canon[j] == canon_cands@[j]@);
        }
        if shares_name(canon, net_canon@) {
            let j = choose|j: int|
                0 <= j < canon.len() && canon[j].len() > 2 && !spec_all_digits(canon[j])
                    && spec_contains(net_canon@, #[trigger] canon[j]);
            assert(canon[j] == cviews(canon_cands@)[j]);
        }
    }
    bump(&mut score, &mut strongest, &mut reason, if shared { 180 } else { 0 }, "shared name");
    assert(b.take(3).drop_last() =~= b.take(2));
    assert((score as int, strongest as int, reason@) == bump_fold(b.take(3)));
    let net_tokens = match_tokens(&net_chars);
    let overlap = shared_role_count(cand_tokens, &net_tokens);
    let role_points: i32 = if overlap < 2 { (overlap as i32) * 140 } else { 280 };
    bump(&mut score, &mut strongest, &mut reason, role_points, "shared signal role");
    assert(b.take(4).drop_last() =~= b.take(3));
    assert((score as int, strongest as int, reason@) == bump_fold(b.take(4)));
    let mut net_hints: Vec<(Vec<char>, NumericHintKind)> = Vec::new();
    extract_number_hints(&net_chars, &mut net_hints);
    assert(hviews(net_hints@) =~= spec_number_hints(net@));
    proof {
        lemma_best_number_points_bounds(hviews(cand_hints@), hviews(net_hints@));
    }
    let number_points = best_points_between(cand_hints, &net_hints);
    bump(&mut score, &mut strongest, &mut reason, number_points, "pin number");
    assert(b.take(5).drop_last() =~= b.take(4));
    assert((score as int, strongest as int, reason@) == bump_fold(b.take(5)));
    let signal_text = string_of(signal);
    let signal_mode = infer_binding_mode(signal_text.as_str());
    let net_mode = infer_net_binding_mode(net);
    let class_points: i32 = if signal_mode == net_mode {
        match signal_mode {
            BindingMode::Power => 120,
            BindingMode::Bus => 100,
            BindingMode::Analog => 90,
            BindingMode::Digital => 60,
            BindingMode::Auto => 0,
        }
    } else {
        0
    };
    bump(&mut score, &mut strongest, &mut reason, class_points, "signal class");
    assert(b.take(6).drop_last() =~= b.take(5));
    assert(b.take(6) =~= b);
    assert((score as int, strongest as int, reason@) == bump_fold(b));
    if strongest == 0 {
        return (score, "heuristic match");
    }
    (score, reason)
}

fn copy_suggestion(s: &NetSuggestion) -> (r: NetSuggestion)
    ensures
        sview(r) == sview(*s),
{
    NetSuggestion { net_name: s.net_name.clone(), score: s.score, reason: s.reason }
}

/// Inserts `item` after every entry it does not rank before.
fn insert_ranked(result: &mut Vec<NetSuggestion>, item: NetSuggestion)
    ensures
        sviews(final(result)@) == sviews(old(result)@).insert(
            rank_position(sviews(old(result)@), sview(item), 0),
            sview(item),
        ),
{
    let ghost rv = sviews(result@);
    let ghost x = sview(item);
    let name = chars_of(item.net_name.as_str());
    let mut k: usize = 0;
    let mut found = false;
    while k < result.len() && !found
        invariant
            rv == sviews(result@),
            x == sview(item),
            name@ == item.net_name@,
            k <= result@.len(),
            found ==> k < result@.len() && ranks_before(x, rv[k as int]),
            rank_position(rv, x, 0) == rank_position(rv, x, k as int),
        decreases result.len() - k + (if found { 0int } else { 1int }),
    {
        let other = chars_of(result[k].net_name.as_str());
        let before = item.score > result[k].score || (item.score == result[k].score && chars_less(
            &name,
            &other,
        ));
        assert(before == ranks_before(x, rv[k as int]));
        if before {
            found = true;
        } else {
            k = k + 1;
        }
    }
    assert(rank_position(rv, x, 0) == k);
    result.insert(k, item);
    assert(sviews(result@) =~= rv.insert(k as int, x));
}

/// Scores every available net for a signal whose candidate net names are
/// `candidates`, keeps those with a positive score and ranks them: higher
/// score first, then by name.
pub fn suggest_pcb_nets(signal: &str, candidates: &[String], available_nets: &[String]) -> (r: Vec<
    NetSuggestion,
>)
    ensures
        sviews(r@) == spec_suggest_pcb_nets(signal@, views(candidates@), views(available_nets@)),
{
    let signal_chars = chars_of(signal);
    let ghost cv = views(candidates@);
    let mut upper_cands: Vec<Vec<char>> = Vec::new();
    let mut canon_cands: Vec<Vec<char>> = Vec::new();
    let mut i: usize = 0;
    while i < candidates.len()
        invariant
            cv == views(candidates@),
            i <= candidates@.len(),
            cviews(upper_cands@) == upper_all(cv.take(i as int)),
            cviews(canon_cands@) == canonical_all(cv.take(i as int)),
        decreases candidates.len() - i,
    {
        let c = chars_of(candidates[i].as_str());
        let ghost u0 = cviews(upper_cands@);
        let ghost c0 = cviews(canon_cands@);
        upper_cands.push(upper(&c));
        canon_cands.push(canonical_signal_name(&c));
        assert(cv.take(i + 1) =~= cv.take(i as int).push(cv[i as int]));
        assert(cviews(upper_cands@) =~= u0.push(spec_upper_seq(cv[i as int])));
        assert(cviews(canon_cands@) =~= c0.push(spec_canonical(cv[i as int])));
        assert(upper_all(cv.take(i + 1)) =~= upper_all(cv.take(i as int)).push(
            spec_upper_seq(cv[i as int]),
        ));
        assert(canonical_all(cv.take(i + 1)) =~= canonical_all(cv.take(i as int)).push(
            spec_canonical(cv[i as int]),
        ));
        i = i + 1;
    }
    assert(cv.take(cv.len() as int) =~= cv);
    let cand_tokens = collect_match_tokens(candidates);
    let cand_hints = collect_number_hints(&signal_chars, candidates);
    let ghost nv = views(available_nets@);
    let mut scored: Vec<NetSuggestion> = Vec::new();
    let mut j: usize = 0;
    while j < available_nets.len()
        invariant
            cv == views(candidates@),
            nv == views(available_nets@),
            signal_chars@ == signal@,
            cviews(upper_cands@) == upper_all(cv),
            cviews(canon_cands@) == canonical_all(cv),
            cviews(cand_tokens@) == dedup(candidate_tokens(cv)),
            hviews(cand_hints@) == candidate_hints(signal@, cv),
            j <= available_nets@.len(),
            sviews(scored@) == scored_nets(signal@, cv, nv.take(j as int)),
        decreases available_nets.len() - j,
    {
        assert(nv.take(j + 1).drop_last() =~= nv.take(j as int));
        assert(nv.take(j + 1).last() == available_nets@[j as int]@);
        let (score, reason) = score_net(
            &signal_chars,
            candidates,
            &upper_cands,
            &canon_cands,
            &cand_tokens,
            &cand_hints,
            available_nets[j].as_str(),
        );
        let ghost before = sviews(scored@);
        if score > 0 {
            scored.push(NetSuggestion { net_name: available_nets[j].clone(), score, reason });
            assert(sviews(scored@) =~= before.push(
                (available_nets@[j as int]@, score as int, reason@),
            ));
        }
        j = j + 1;
    }
    assert(nv.take(nv.len() as int) =~= nv);
    let ghost sv = sviews(scored@);
    let mut ranked: Vec<NetSuggestion> = Vec::new();
    let mut k: usize = 0;
    while k < scored.len()
        invariant
            sv == sviews(scored@),
            k <= scored@.len(),
            sviews(ranked@) == rank_suggestions(sv.take(k as int)),
        decreases scored.len() - k,
    {
        assert(sv.take(k + 1).drop_last() =~= sv.take(k as int));
        assert(sv.take(k + 1).last() == sview(scored@[k as int]));
        insert_ranked(&mut ranked, copy_suggestion(&scored[k]));
        k = k + 1;
    }
    assert(sv.take(sv.len() as int) =~= sv);
    ranked
}

/// Ranked nets for a controller signal, matched against its candidate
/// net names.
pub fn controller_signal_suggestions(board: HostBoard, signal: &str, available_nets: &[String]) -> (r:
    Vec<NetSuggestion>)
    requires
        strictly_sorted(views(available_nets@)),
    ensures
        sviews(r@) == spec_suggest_pcb_nets(
            signal@,
            spec_candidate_pcb_nets(board, signal@),
            views(available_nets@),
        ),
{
    let candidates = candidate_pcb_nets(board, signal);
    suggest_pcb_nets(signal, candidates.as_slice(), available_nets)
}

/// A best suggestion clear enough to apply without asking.
pub open spec fn spec_should_auto_apply(s: Seq<(Seq<char>, int, Seq<char>)>) -> bool {
    if s.len() == 0 {
        false
    } else {
        let best = s[0].1;
        let second = if s.len() > 1 {
            s[1].1
        } else {
            0
        };
        best >= 900 || (best >= 450 && best - second >= 80) || (best >= 320 && best - second
            >= 140)
    }
}

pub fn should_auto_apply_suggestion(suggestions: &[NetSuggestion]) -> (r: bool)
    ensures
        r == spec_should_auto_apply(sviews(suggestions@)),
{
    if suggestions.len() == 0 {
        return false;
    }
    let best = suggestions[0].score as i64;
    let second: i64 = if suggestions.len() > 1 {
        suggestions[1].score as i64
    } else {
        0
    };
    best >= 900 || (best >= 450 && best - second >= 80) || (best >= 320 && best - second >= 140)
}

// ---------------------------------------------------------------------------
// Binding a whole host board
// ---------------------------------------------------------------------------

pub open spec fn bview(b: SignalBinding) -> (Seq<char>, Seq<char>, BindingMode, Option<Seq<char>>) {
    (
        b.board_signal@,
        b.pcb_net@,
        b.mode,
        match b.note {
            Some(n) => Some(n@),
            None => None,
        },
    )
}

pub open spec fn bviews(v: Seq<SignalBinding>) -> Seq<
    (Seq<char>, Seq<char>, BindingMode, Option<Seq<char>>),
> {
    v.map_values(|b: SignalBinding| bview(b))
}

/// The binding auto-wiring makes for one signal: its best net, when clear
/// enough, with a note saying why.
pub open spec fn spec_auto_binding(board: HostBoard, signal: Seq<char>, nets: Seq<Seq<char>>) -> Option<
    (Seq<char>, Seq<char>, BindingMode, Option<Seq<char>>),
> {
    let sug = spec_suggest_pcb_nets(signal, spec_candidate_pcb_nets(board, signal), nets);
    if spec_should_auto_apply(sug) {
        let best = sug[0];
        Some(
            (
                signal,
                best.0,
                spec_infer_binding_mode(signal),
                Some(
                    "Auto-bound by arduino_simulator ("@ + spec_confidence_label(best.1) + ", "@
                        + best.2 + ")"@,
                ),
            ),
        )
    } else {
        None
    }
}

pub open spec fn spec_auto_bind(board: HostBoard, signals: Seq<Seq<char>>, nets: Seq<Seq<char>>) -> Seq<
    (Seq<char>, Seq<char>, BindingMode, Option<Seq<char>>),
>
    decreases signals.len(),
{
    if signals.len() == 0 {
        Seq::empty()
    } else {
        let rest = spec_auto_bind(board, signals.drop_last(), nets);
        match spec_auto_binding(board, signals.last(), nets) {
            Some(b) => rest.push(b),
            None => rest,
        }
    }
}

/// Binds every signal of the host board (`host_signals`, the nets of its
/// built-in model) whose best PCB net is a clear match.
pub fn auto_bind_host_board(board: HostBoard, host_signals: &[String], available_nets: &[String]) -> (r:
    Vec<SignalBinding>)
    requires
        strictly_sorted(views(available_nets@)),
    ensures
        bviews(r@) == spec_auto_bind(board, views(host_signals@), views(available_nets@)),
{
    let ghost sv = views(host_signals@);
    let ghost nv = views(available_nets@);
    let mut bindings: Vec<SignalBinding> = Vec::new();
    let mut i: usize = 0;
    while i < host_signals.len()
        invariant
            sv == views(host_signals@),
            nv == views(available_nets@),
            strictly_sorted(nv),
            i <= host_signals@.len(),
            bviews(bindings@) == spec_auto_bind(board, sv.take(i as int), nv),
        decreases host_signals.len() - i,
    {
        assert(sv.take(i + 1).drop_last() =~= sv.take(i as int));
        assert(sv.take(i + 1).last() == host_signals@[i as int]@);
        let signal = host_signals[i].as_str();
        let suggestions = controller_signal_suggestions(board, signal, available_nets);
        let ghost before = bviews(bindings@);
        if should_auto_apply_suggestion(suggestions.as_slice()) {
            let best = &suggestions[0];
            let mut note = owned("Auto-bound by arduino_simulator (");
            note.append(best.confidence_label());
            note.append(", ");
            note.append(best.reason);
            note.append(")");
            let binding = SignalBinding {
                board_signal: owned(signal),
                pcb_net: best.net_name.clone(),
                mode: infer_binding_mode(signal),
                note: Some(note),
            };
            bindings.push(binding);
            assert(sviews(suggestions@)[0] == sview(suggestions@[0]));
            assert(bviews(bindings@) =~= before.push(
                spec_auto_binding(board, host_signals@[i as int]@, nv).unwrap(),
            ));
        }
        i = i + 1;
    }
    assert(sv.take(sv.len() as int) =~= sv);
    bindings
}

/// Existing bindings whose signal the board has and whose net the PCB has.
pub open spec fn kept_bindings(
    existing: Seq<SignalBinding>,
    signals: Seq<Seq<char>>,
    nets: Seq<Seq<char>>,
) -> Seq<(Seq<char>, Seq<char>, BindingMode, Option<Seq<char>>)>
    decreases existing.len(),
{
    if existing.len() == 0 {
        Seq::empty()
    } else {
        let rest = kept_bindings(existing.drop_last(), signals, nets);
        let b = existing.last();
        if signals.contains(b.board_signal@) && nets.contains(b.pcb_net@) {
            rest.push(bview(b))
        } else {
            rest
        }
    }
}

pub open spec fn binding_signals(b: Seq<(Seq<char>, Seq<char>, BindingMode, Option<Seq<char>>)>) -> Seq<
    Seq<char>,
> {
    b.map_values(|x: (Seq<char>, Seq<char>, BindingMode, Option<Seq<char>>)| x.0)
}

/// The automatic bindings for signals no kept binding covers.
pub open spec fn missing_bindings(
    bound: Seq<Seq<char>>,
    auto: Seq<(Seq<char>, Seq<char>, BindingMode, Option<Seq<char>>)>,
) -> Seq<(Seq<char>, Seq<char>, BindingMode, Option<Seq<char>>)>
    decreases auto.len(),
{
    if auto.len() == 0 {
        Seq::empty()
    } else {
        let rest = missing_bindings(bound, auto.drop_last());
        if bound.contains(auto.last().0) {
            rest
        } else {
            rest.push(auto.last())
        }
    }
}

/// The first position from `k` whose signal sorts after `x`'s.
pub open spec fn signal_position(
    r: Seq<(Seq<char>, Seq<char>, BindingMode, Option<Seq<char>>)>,
    x: (Seq<char>, Seq<char>, BindingMode, Option<Seq<char>>),
    k: int,
) -> int
    decreases r.len() - k,
{
    if k < 0 || k >= r.len() {
        r.len() as int
    } else if chars_lt(x.0, r[k].0) {
        k
    } else {
        signal_position(r, x, k + 1)
    }
}

/// Bindings sorted by signal name, stably (insertion sort).
pub open spec fn sort_by_signal(s: Seq<(Seq<char>, Seq<char>, BindingMode, Option<Seq<char>>)>) -> Seq<
    (Seq<char>, Seq<char>, BindingMode, Option<Seq<char>>),
>
    decreases s.len(),
{
    if s.len() == 0 {
        Seq::empty()
    } else {
        let r = sort_by_signal(s.drop_last());
        r.insert(signal_position(r, s.last(), 0), s.last())
    }
}

pub open spec fn spec_sync_bindings(
    board: HostBoard,
    signals: Seq<Seq<char>>,
    nets: Seq<Seq<char>>,
    existing: Seq<SignalBinding>,
) -> Seq<(Seq<char>, Seq<char>, BindingMode, Option<Seq<char>>)> {
    let kept = kept_bindings(existing, signals, nets);
    sort_by_signal(kept + missing_bindings(binding_signals(kept), spec_auto_bind(board, signals, nets)))
}

pub(crate) proof fn lemma_signal_position_bounds(
    r: Seq<(Seq<char>, Seq<char>, BindingMode, Option<Seq<char>>)>,
    x: (Seq<char>, Seq<char>, BindingMode, Option<Seq<char>>),
    k: int,
)
    requires
        0 <= k <= r.len(),
    ensures
        k <= signal_position(r, x, k) <= r.len(),
    decreases r.len() - k,
{
    if k < r.len() && !chars_lt(x.0, r[k].0) {
        lemma_signal_position_bounds(r, x, k + 1);
    }
}

pub(crate) fn copy_binding(b: &SignalBinding) -> (r: SignalBinding)
    ensures
        r == *b,
{
    SignalBinding {
        board_signal: b.board_signal.clone(),
        pcb_net: b.pcb_net.clone(),
        mode: b.mode,
        note: match &b.note {
            Some(n) => Some(n.clone()),
            None => None,
        },
    }
}

pub(crate) fn insert_by_signal(result: &mut Vec<SignalBinding>, item: SignalBinding)
    ensures
        bviews(final(result)@) == bviews(old(result)@).insert(
            signal_position(bviews(old(result)@), bview(item), 0),
            bview(item),
        ),
{
    let ghost rv = bviews(result@);
    let ghost x = bview(item);
    let name = chars_of(item.board_signal.as_str());
    let mut k: usize = 0;
    let mut found = false;
    while k < result.len() && !found
        invariant
            rv == bviews(result@),
            x == bview(item),
            name@ == item.board_signal@,
            k <= result@.len(),
            found ==> k < result@.len() && chars_lt(x.0, rv[k as int].0),
            signal_position(rv, x, 0) == signal_position(rv, x, k as int),
        decreases result.len() - k + (if found { 0int } else { 1int }),
    {
        let other = chars_of(result[k].board_signal.as_str());
        if chars_less(&name, &other) {
            found = true;
        } else {
            k = k + 1;
        }
    }
    proof {
        lemma_signal_position_bounds(rv, x, k as int);
    }
    result.insert(k, item);
    assert(bviews(result@) =~= rv.insert(k as int, x));
}

/// Keeps the existing bindings that still fit the board and the PCB, adds
/// automatic bindings for the signals left unbound, and sorts the result
/// by signal name.
pub fn sync_host_board_bindings(
    board: HostBoard,
    host_signals: &[String],
    available_nets: &[String],
    existing: &[SignalBinding],
) -> (r: Vec<SignalBinding>)
    requires
        strictly_sorted(views(available_nets@)),
    ensures
        bviews(r@) == spec_sync_bindings(
            board,
            views(host_signals@),
            views(available_nets@),
            existing@,
        ),
{
    let ghost sv = views(host_signals@);
    let ghost nv = views(available_nets@);
    let mut merged: Vec<SignalBinding> = Vec::new();
    let mut bound: Vec<String> = Vec::new();
    let mut i: usize = 0;
    while i < existing.len()
        invariant
            sv == views(host_signals@),
            nv == views(available_nets@),
            i <= existing@.len(),
            bviews(merged@) == kept_bindings(existing@.take(i as int), sv, nv),
            views(bound@) == binding_signals(bviews(merged@)),
        decreases existing.len() - i,
    {
        assert(existing@.take(i + 1).drop_last() =~= existing@.take(i as int));
        let b = &existing[i];
        let ghost before = bviews(merged@);
        let ghost before_bound = views(bound@);
        if contains_str(host_signals, b.board_signal.as_str()) && contains_str(
            available_nets,
            b.pcb_net.as_str(),
        ) {
            merged.push(copy_binding(b));
            bound.push(b.board_signal.clone());
            assert(bviews(merged@) =~= before.push(bview(existing@[i as int])));
            assert(views(bound@) =~= before_bound.push(existing@[i as int].board_signal@));
            assert(binding_signals(bviews(merged@)) =~= binding_signals(before).push(
                existing@[i as int].board_signal@,
            ));
        }
        i = i + 1;
    }
    assert(existing@.take(existing@.len() as int) =~= existing@);
    let ghost kept = bviews(merged@);
    let auto = auto_bind_host_board(board, host_signals, available_nets);
    let ghost av = bviews(auto@);
    let mut j: usize = 0;
    while j < auto.len()
        invariant
            av == bviews(auto@),
            views(bound@) == binding_signals(kept),
            j <= auto@.len(),
            bviews(merged@) == kept + missing_bindings(binding_signals(kept), av.take(j as int)),
        decreases auto.len() - j,
    {
        assert(av.take(j + 1).drop_last() =~= av.take(j as int));
        assert(av.take(j + 1).last() == bview(auto@[j as int]));
        let ghost before = bviews(merged@);
        if !contains_str(bound.as_slice(), auto[j].board_signal.as_str()) {
            merged.push(copy_binding(&auto[j]));
            assert(bviews(merged@) =~= before.push(bview(auto@[j as int])));
        }
        j = j + 1;
    }
    assert(av.take(av.len() as int) =~= av);
    let ghost mv = bviews(merged@);
    let mut sorted: Vec<SignalBinding> = Vec::new();
    let mut k: usize = 0;
    while k < merged.len()
        invariant
            mv == bviews(merged@),
            k <= merged@.len(),
            bviews(sorted@) == sort_by_signal(mv.take(k as int)),
        decreases merged.len() - k,
    {
        assert(mv.take(k + 1).drop_last() =~= mv.take(k as int));
        assert(mv.take(k + 1).last() == bview(merged@[k as int]));
        insert_by_signal(&mut sorted, copy_binding(&merged[k]));
        k = k + 1;
    }
    assert(mv.take(mv.len() as int) =~= mv);
    sorted
}

// ---------------------------------------------------------------------------
// Laws of the ranked and sorted lists
// ---------------------------------------------------------------------------

/// No entry of `r` ranks before one that comes earlier.
pub open spec fn ranked(r: Seq<(Seq<char>, int, Seq<char>)>) -> bool {
    forall|i: int, j: int| 0 <= i < j < r.len() ==> !ranks_before(#[trigger] r[j], #[trigger] r[i])
}

proof fn lemma_ranks_before_order(
    x: (Seq<char>, int, Seq<char>),
    y: (Seq<char>, int, Seq<char>),
    z: (Seq<char>, int, Seq<char>),
)
    ensures
        !(ranks_before(x, y) && ranks_before(y, x)),
        ranks_before(x, y) && ranks_before(y, z) ==> ranks_before(x, z),
{
    lemma_chars_lt_asymmetric(x.0, y.0);
    if ranks_before(x, y) && ranks_before(y, z) && x.1 == y.1 && y.1 == z.1 {
        lemma_chars_lt_transitive(x.0, y.0, z.0);
    }
}

proof fn lemma_rank_position_scan(r: Seq<(Seq<char>, int, Seq<char>)>, x: (Seq<char>, int, Seq<char>), k: int)
    requires
        0 <= k <= r.len(),
    ensures
        forall|m: int| k <= m < rank_position(r, x, k) ==> !ranks_before(x, #[trigger] r[m]),
        rank_position(r, x, k) < r.len() ==> ranks_before(x, r[rank_position(r, x, k)]),
    decreases r.len() - k,
{
    if k < r.len() && !ranks_before(x, r[k]) {
        lemma_rank_position_scan(r, x, k + 1);
    }
}

pub(crate) proof fn lemma_rank_suggestions(s: Seq<(Seq<char>, int, Seq<char>)>)
    ensures
        ranked(rank_suggestions(s)),
        rank_suggestions(s).to_multiset() == s.to_multiset(),
    decreases s.len(),
{
    broadcast use vstd::seq_lib::to_multiset_build, vstd::seq_lib::to_multiset_insert;

    if s.len() > 0 {
        let r = rank_suggestions(s.drop_last());
        let x = s.last();
        lemma_rank_suggestions(s.drop_last());
        lemma_rank_position_bounds(r, x, 0);
        lemma_rank_position_scan(r, x, 0);
        let p = rank_position(r, x, 0);
        let t = r.insert(p, x);
        assert forall|i: int, j: int| 0 <= i < j < t.len() implies !ranks_before(
            #[trigger] t[j],
            #[trigger] t[i],
        ) by {
            if j < p {
                assert(t[i] == r[i] && t[j] == r[j]);
            } else if j == p {
                assert(t[i] == r[i]);
                assert(!ranks_before(x, r[i]));
            } else if i < p {
                assert(t[i] == r[i] && t[j] == r[j - 1]);
            } else if i == p {
                assert(t[j] == r[j - 1]);
                if ranks_before(r[j - 1], x) {
                    lemma_ranks_before_order(r[j - 1], x, r[p]);
                    if j - 1 == p {
                        lemma_ranks_before_order(x, r[p], x);
                    }
                }
            } else {
                assert(t[i] == r[i - 1] && t[j] == r[j - 1]);
            }
        }
        assert(s =~= s.drop_last().push(x));
        vstd::seq_lib::to_multiset_insert(r, p, x);
        vstd::seq_lib::to_multiset_build(s.drop_last(), x);
    } else {
        assert(s =~= Seq::empty());
    }
}

/// Suggestions come best first: a higher score first, and for equal scores
/// the net whose name sorts first; they are exactly the scored nets,
/// reordered.
pub proof fn law_suggestions_ranked(signal: Seq<char>, cands: Seq<Seq<char>>, nets: Seq<Seq<char>>)
    ensures
        ranked(spec_suggest_pcb_nets(signal, cands, nets)),
        spec_suggest_pcb_nets(signal, cands, nets).to_multiset() == scored_nets(
            signal,
            cands,
            nets,
        ).to_multiset(),
{
    lemma_rank_suggestions(scored_nets(signal, cands, nets));
}

proof fn lemma_scored_nets_available(signal: Seq<char>, cands: Seq<Seq<char>>, nets: Seq<Seq<char>>)
    ensures
        forall|k: int|
            0 <= k < scored_nets(signal, cands, nets).len() ==> nets.contains(
                #[trigger] scored_nets(signal, cands, nets)[k].0,
            ),
    decreases nets.len(),
{
    if nets.len() > 0 {
        let init = nets.drop_last();
        lemma_scored_nets_available(signal, cands, init);
        let rest = scored_nets(signal, cands, init);
        assert forall|k: int| 0 <= k < rest.len() implies nets.contains(#[trigger] rest[k].0) by {
            let j = choose|j: int| 0 <= j < init.len() && init[j] == rest[k].0;
            assert(nets[j] == init[j]);
        }
        assert(nets[nets.len() - 1] == nets.last());
    }
}

/// Every suggested net is one of the PCB's nets.
pub proof fn law_suggested_nets_available(signal: Seq<char>, cands: Seq<Seq<char>>, nets: Seq<Seq<char>>)
    ensures
        forall|k: int|
            0 <= k < spec_suggest_pcb_nets(signal, cands, nets).len() ==> nets.contains(
                #[trigger] spec_suggest_pcb_nets(signal, cands, nets)[k].0,
            ),
{
    broadcast use vstd::seq_lib::to_multiset_contains;

    let scored = scored_nets(signal, cands, nets);
    let r = spec_suggest_pcb_nets(signal, cands, nets);
    lemma_rank_suggestions(scored);
    lemma_scored_nets_available(signal, cands, nets);
    assert forall|k: int| 0 <= k < r.len() implies nets.contains(#[trigger] r[k].0) by {
        assert(r.contains(r[k]));
        assert(r.to_multiset().count(r[k]) > 0);
        assert(scored.contains(r[k]));
        let j = choose|j: int| 0 <= j < scored.len() && scored[j] == r[k];
        assert(nets.contains(scored[j].0));
    }
}

proof fn lemma_bump_fold_prefix(b: Seq<(int, Seq<char>)>, m: int)
    requires
        0 <= m <= b.len(),
    ensures
        bump_fold(b).0 >= bump_fold(b.take(m)).0,
    decreases b.len(),
{
    if m == b.len() {
        assert(b.take(m) =~= b);
    } else {
        lemma_bump_fold_prefix(b.drop_last(), m);
        assert(b.drop_last().take(m) =~= b.take(m));
    }
}

proof fn lemma_scored_nets_entries(signal: Seq<char>, cands: Seq<Seq<char>>, nets: Seq<Seq<char>>)
    ensures
        forall|k: int|
            0 <= k < scored_nets(signal, cands, nets).len() ==> {
                let e = #[trigger] scored_nets(signal, cands, nets)[k];
                &&& e.1 > 0
                &&& e == (e.0, spec_net_score(signal, cands, e.0).0, spec_net_score(signal, cands, e.0).1)
            },
        forall|n: Seq<char>|
            nets.contains(n) && #[trigger] spec_net_score(signal, cands, n).0 > 0 ==> scored_nets(
                signal,
                cands,
                nets,
            ).contains((n, spec_net_score(signal, cands, n).0, spec_net_score(signal, cands, n).1)),
        nets.no_duplicates() ==> scored_nets(signal, cands, nets).no_duplicates(),
    decreases nets.len(),
{
    lemma_scored_nets_available(signal, cands, nets);
    if nets.len() > 0 {
        let init = nets.drop_last();
        let rest = scored_nets(signal, cands, init);
        let last = nets.last();
        let sc = spec_net_score(signal, cands, last);
        lemma_scored_nets_entries(signal, cands, init);
        lemma_scored_nets_available(signal, cands, init);
        let r = scored_nets(signal, cands, nets);
        assert forall|n: Seq<char>|
            nets.contains(n) && #[trigger] spec_net_score(signal, cands, n).0 > 0 implies r.contains(
            (n, spec_net_score(signal, cands, n).0, spec_net_score(signal, cands, n).1),
        ) by {
            let x = (n, spec_net_score(signal, cands, n).0, spec_net_score(signal, cands, n).1);
            if n == last {
                assert(r[r.len() - 1] == x);
            } else {
                let j = choose|j: int| 0 <= j < nets.len() && nets[j] == n;
                assert(init[j] == n);
                assert(init.contains(n));
                let i = choose|i: int| 0 <= i < rest.len() && rest[i] == x;
                assert(r[i] == x);
            }
        }
        if nets.no_duplicates() {
            assert(init.no_duplicates()) by {
                assert forall|i: int, j: int| 0 <= i < init.len() && 0 <= j < init.len() && i != j implies init[i]
                    != init[j] by {
                    assert(init[i] == nets[i] && init[j] == nets[j]);
                }
            }
            if sc.0 > 0 {
                assert forall|i: int, j: int| 0 <= i < r.len() && 0 <= j < r.len() && i != j implies r[i]
                    != r[j] by {
                    if i < rest.len() && j < rest.len() {
                        assert(r[i] == rest[i] && r[j] == rest[j]);
                    } else {
                        let k = if i < rest.len() { i } else { j };
                        assert(r[k] == rest[k]);
                        assert(init.contains(rest[k].0));
                        let m = choose|m: int| 0 <= m < init.len() && init[m] == rest[k].0;
                        assert(nets[m] == init[m]);
                        assert(nets[nets.len() - 1] == last);
                    }
                }
            }
        }
    }
}

/// Every suggestion has a positive score, the score and reason of its net;
/// among distinct nets each is suggested once; and a net that matches an
/// alias of the signal exactly is suggested with at least 1200 points.
pub proof fn law_suggestion_scores(signal: Seq<char>, cands: Seq<Seq<char>>, nets: Seq<Seq<char>>)
    ensures
        forall|k: int|
            0 <= k < spec_suggest_pcb_nets(signal, cands, nets).len() ==> {
                let e = #[trigger] spec_suggest_pcb_nets(signal, cands, nets)[k];
                &&& e.1 > 0
                &&& e.1 == spec_net_score(signal, cands, e.0).0
                &&& e.2 == spec_net_score(signal, cands, e.0).1
            },
        nets.no_duplicates() ==> forall|i: int, j: int|
            0 <= i < j < spec_suggest_pcb_nets(signal, cands, nets).len() ==> #[trigger] spec_suggest_pcb_nets(
                signal,
                cands,
                nets,
            )[i].0 != #[trigger] spec_suggest_pcb_nets(signal, cands, nets)[j].0,
        forall|n: Seq<char>|
            nets.contains(n) && #[trigger] upper_all(cands).contains(spec_upper_seq(n)) ==> exists|k: int|
                0 <= k < spec_suggest_pcb_nets(signal, cands, nets).len() && #[trigger] spec_suggest_pcb_nets(
                    signal,
                    cands,
                    nets,
                )[k].0 == n && spec_suggest_pcb_nets(signal, cands, nets)[k].1 >= 1200,
{
    broadcast use vstd::seq_lib::to_multiset_contains;

    let scored = scored_nets(signal, cands, nets);
    let r = spec_suggest_pcb_nets(signal, cands, nets);
    lemma_rank_suggestions(scored);
    lemma_scored_nets_entries(signal, cands, nets);
    assert forall|k: int| 0 <= k < r.len() implies {
        let e = #[trigger] r[k];
        &&& e.1 > 0
        &&& e.1 == spec_net_score(signal, cands, e.0).0
        &&& e.2 == spec_net_score(signal, cands, e.0).1
    } by {
        assert(r.contains(r[k]));
        assert(r.to_multiset().count(r[k]) > 0);
        assert(scored.contains(r[k]));
        let j = choose|j: int| 0 <= j < scored.len() && scored[j] == r[k];
    }
    if nets.no_duplicates() {
        scored.lemma_multiset_has_no_duplicates();
        r.lemma_multiset_has_no_duplicates_conv();
        assert forall|i: int, j: int| 0 <= i < j < r.len() implies #[trigger] r[i].0 != #[trigger] r[j].0 by {
            if r[i].0 == r[j].0 {
                assert(r[i] == r[j]);
            }
        }
    }
    assert forall|n: Seq<char>| nets.contains(n) && #[trigger] upper_all(cands).contains(spec_upper_seq(n)) implies exists|k: int|
        0 <= k < r.len() && #[trigger] r[k].0 == n && r[k].1 >= 1200 by {
        let b = spec_bumps(signal, cands, n);
        lemma_bump_fold_prefix(b, 1);
        assert(b.take(1).drop_last() =~= Seq::<(int, Seq<char>)>::empty());
        assert(b.take(1).last() == b[0]);
        assert(b[0].0 == 1200);
        assert(bump_fold(b.take(1).drop_last()).0 == 0 && bump_fold(b.take(1).drop_last()).1 == 0);
        assert(bump_fold(b.take(1)).0 == 1200);
        let sc = spec_net_score(signal, cands, n);
        assert(sc.0 >= 1200);
        let x = (n, sc.0, sc.1);
        assert(scored.contains(x));
        assert(scored.to_multiset().count(x) > 0);
        assert(r.contains(x));
        let k = choose|k: int| 0 <= k < r.len() && r[k] == x;
        assert(r[k].0 == n);
    }
}

/// No binding of `r` has a signal name sorting before that of an earlier one.
pub open spec fn sorted_by_signal(r: Seq<(Seq<char>, Seq<char>, BindingMode, Option<Seq<char>>)>) -> bool {
    forall|i: int, j: int| 0 <= i < j < r.len() ==> !chars_lt(#[trigger] r[j].0, #[trigger] r[i].0)
}

proof fn lemma_signal_position_scan(
    r: Seq<(Seq<char>, Seq<char>, BindingMode, Option<Seq<char>>)>,
    x: (Seq<char>, Seq<char>, BindingMode, Option<Seq<char>>),
    k: int,
)
    requires
        0 <= k <= r.len(),
    ensures
        forall|m: int| k <= m < signal_position(r, x, k) ==> !chars_lt(x.0, #[trigger] r[m].0),
        signal_position(r, x, k) < r.len() ==> chars_lt(x.0, r[signal_position(r, x, k)].0),
    decreases r.len() - k,
{
    if k < r.len() && !chars_lt(x.0, r[k].0) {
        lemma_signal_position_scan(r, x, k + 1);
    }
}

pub(crate) proof fn lemma_sort_by_signal(s: Seq<(Seq<char>, Seq<char>, BindingMode, Option<Seq<char>>)>)
    ensures
        sorted_by_signal(sort_by_signal(s)),
        sort_by_signal(s).to_multiset() == s.to_multiset(),
    decreases s.len(),
{
    broadcast use vstd::seq_lib::to_multiset_build, vstd::seq_lib::to_multiset_insert;

    if s.len() > 0 {
        let r = sort_by_signal(s.drop_last());
        let x = s.last();
        lemma_sort_by_signal(s.drop_last());
        lemma_signal_position_bounds(r, x, 0);
        lemma_signal_position_scan(r, x, 0);
        let p = signal_position(r, x, 0);
        let t = r.insert(p, x);
        assert forall|i: int, j: int| 0 <= i < j < t.len() implies !chars_lt(
            #[trigger] t[j].0,
            #[trigger] t[i].0,
        ) by {
            if j < p {
                assert(t[i] == r[i] && t[j] == r[j]);
            } else if j == p {
                assert(t[i] == r[i]);
                assert(!chars_lt(x.0, r[i].0));
            } else if i < p {
                assert(t[i] == r[i] && t[j] == r[j - 1]);
            } else if i == p {
                assert(t[j] == r[j - 1]);
                if chars_lt(r[j - 1].0, x.0) {
                    lemma_chars_lt_transitive(r[j - 1].0, x.0, r[p].0);
                    if j - 1 == p {
                        lemma_chars_lt_irreflexive(r[p].0);
                    }
                }
            } else {
                assert(t[i] == r[i - 1] && t[j] == r[j - 1]);
            }
        }
        assert(s =~= s.drop_last().push(x));
        vstd::seq_lib::to_multiset_insert(r, p, x);
        vstd::seq_lib::to_multiset_build(s.drop_last(), x);
    } else {
        assert(s =~= Seq::empty());
    }
}

/// Synchronised bindings are sorted by signal name, and are exactly the
/// still valid existing bindings plus the automatic bindings of the signals
/// those leave unbound.
pub proof fn law_synced_bindings_sorted(
    board: HostBoard,
    signals: Seq<Seq<char>>,
    nets: Seq<Seq<char>>,
    existing: Seq<SignalBinding>,
)
    ensures
        sorted_by_signal(spec_sync_bindings(board, signals, nets, existing)),
        spec_sync_bindings(board, signals, nets, existing).to_multiset() == ({
            let kept = kept_bindings(existing, signals, nets);
            kept + missing_bindings(binding_signals(kept), spec_auto_bind(board, signals, nets))
        }).to_multiset(),
{
    let kept = kept_bindings(existing, signals, nets);
    lemma_sort_by_signal(
        kept + missing_bindings(binding_signals(kept), spec_auto_bind(board, signals, nets)),
    );
}


/// Automatic binding goes through the board's signals in order and keeps,
/// for each, its binding when the signal's best net is a clear match: a
/// filter-map of the signals.
pub proof fn law_auto_bind_filter_map(board: HostBoard, signals: Seq<Seq<char>>, nets: Seq<Seq<char>>)
    ensures
        spec_auto_bind(board, signals, nets) == signals.filter_map(
            |s: Seq<char>| spec_auto_binding(board, s, nets),
        ),
    decreases signals.len(),
{
    if signals.len() > 0 {
        law_auto_bind_filter_map(board, signals.drop_last(), nets);
        let rest = spec_auto_bind(board, signals.drop_last(), nets);
        match spec_auto_binding(board, signals.last(), nets) {
            Some(b) => {
                assert(rest.push(b) =~= rest + seq![b]);
            },
            None => {},
        }
    }
}

/// The bindings of signal `s`.
pub open spec fn for_signal(s: Seq<char>) -> spec_fn((Seq<char>, Seq<char>, BindingMode, Option<Seq<char>>)) -> bool {
    |b: (Seq<char>, Seq<char>, BindingMode, Option<Seq<char>>)| b.0 == s
}

/// No element of `v` has signal `s`, so filtering by it leaves nothing.
proof fn lemma_filter_none(v: Seq<(Seq<char>, Seq<char>, BindingMode, Option<Seq<char>>)>, s: Seq<char>)
    requires
        forall|k: int| 0 <= k < v.len() ==> #[trigger] v[k].0 != s,
    ensures
        v.filter(for_signal(s)) == Seq::<(Seq<char>, Seq<char>, BindingMode, Option<Seq<char>>)>::empty(),
    decreases v.len(),
{
    reveal_with_fuel(Seq::filter, 1);
    if v.len() > 0 {
        lemma_filter_none(v.drop_last(), s);
        assert(v.last() == v[v.len() - 1]);
    }
}

/// Sorting by signal name is stable: the bindings of any one signal come
/// out in the order they went in.
pub proof fn law_sort_by_signal_stable(v: Seq<(Seq<char>, Seq<char>, BindingMode, Option<Seq<char>>)>, s: Seq<char>)
    ensures
        sort_by_signal(v).filter(for_signal(s)) == v.filter(for_signal(s)),
    decreases v.len(),
{
    reveal_with_fuel(Seq::filter, 1);
    if v.len() > 0 {
        let f = for_signal(s);
        let init = v.drop_last();
        let x = v.last();
        let r = sort_by_signal(init);
        law_sort_by_signal_stable(init, s);
        lemma_sort_by_signal(init);
        lemma_signal_position_bounds(r, x, 0);
        lemma_signal_position_scan(r, x, 0);
        let p = signal_position(r, x, 0);
        let head = r.take(p);
        let tail = r.skip(p);
        assert(r.insert(p, x) =~= head + (seq![x] + tail));
        assert(r =~= head + tail);
        Seq::filter_distributes_over_add(head, seq![x] + tail, f);
        Seq::filter_distributes_over_add(seq![x], tail, f);
        Seq::filter_distributes_over_add(head, tail, f);
        assert(seq![x].drop_last() =~= Seq::<(Seq<char>, Seq<char>, BindingMode, Option<Seq<char>>)>::empty());
        assert(Seq::<(Seq<char>, Seq<char>, BindingMode, Option<Seq<char>>)>::empty().filter(f) =~= Seq::<(Seq<char>, Seq<char>, BindingMode, Option<Seq<char>>)>::empty());
        if x.0 == s {
            assert forall|k: int| 0 <= k < tail.len() implies #[trigger] tail[k].0 != s by {
                assert(tail[k] == r[p + k]);
                if r[p + k].0 == x.0 {
                    if k > 0 {
                        assert(!chars_lt(r[p + k].0, r[p].0));
                    } else {
                        lemma_chars_lt_irreflexive(x.0);
                    }
                }
            }
            lemma_filter_none(tail, s);
            assert(seq![x].filter(f) =~= seq![x]);
            assert(head.filter(f) + (seq![x] + tail.filter(f)) =~= (head.filter(f) + tail.filter(f)).push(x));
        } else {
            assert(seq![x].filter(f) =~= Seq::<(Seq<char>, Seq<char>, BindingMode, Option<Seq<char>>)>::empty());
            assert(head.filter(f) + (Seq::<(Seq<char>, Seq<char>, BindingMode, Option<Seq<char>>)>::empty() + tail.filter(f)) =~= head.filter(f) + tail.filter(f));
        }
    }
}

/// Synchronising keeps, for each signal, the still valid existing bindings
/// and the added automatic ones in the order they had before sorting.
pub proof fn law_synced_bindings_stable(
    board: HostBoard,
    signals: Seq<Seq<char>>,
    nets: Seq<Seq<char>>,
    existing: Seq<SignalBinding>,
    s: Seq<char>,
)
    ensures
        spec_sync_bindings(board, signals, nets, existing).filter(for_signal(s)) == ({
            let kept = kept_bindings(existing, signals, nets);
            kept + missing_bindings(binding_signals(kept), spec_auto_bind(board, signals, nets))
        }).filter(for_signal(s)),
{
    let kept = kept_bindings(existing, signals, nets);
    law_sort_by_signal_stable(
        kept + missing_bindings(binding_signals(kept), spec_auto_bind(board, signals, nets)),
        s,
    );
}

} // verus!

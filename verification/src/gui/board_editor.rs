//! The board editor's rules: naming members, wires and exported pins, board
//! file names, ports derived from net names, and matching the ports of a
//! module to the ports of the primary controller.

use vstd::prelude::*;
use crate::project::assembly_bundle::{AssemblyBundle, AssemblyMember, AssemblyMemberKind};
use crate::project::definitions::{
    export_names, AssemblyExport, AttachmentEndpoint, DefinitionSource, DefinitionSourceKind, PortClass, PortDefinition,
    PortDirection,
};
use crate::project::paths::{
    extension_of, file_name, last_index_of, spec_extension, spec_file_name, spec_with_file_name,
    with_file_name,
};
use crate::project::shared::FirmwareSourceKind;
use crate::gui::pcb_view::{LoadedPcb, PcbComponent};
use crate::gui::wiring::{insert_name, name_set};
use crate::project::paths::cviews;
use crate::text::{
    all_digits, chars_of, first_free_number, numbered, concat2, contains_str, decimal, is, is_alnum, is_blank, lower, owned, parse_u8, push_all, slice,
    spec_contains, spec_all_digits, spec_decimal, spec_ends_with, spec_is_digit, spec_is_alnum, spec_is_blank, spec_lower_seq,
    spec_parse_u8, spec_starts_with, spec_strip_suffix, spec_trim, spec_trim_end,
    spec_trim_start, spec_upper_seq, str_contains,
    str_ends_with, str_eq, str_starts_with, string_of, strip_suffix, trim, upper, views,
};

verus! {

/// The id of the primary member of every assembly the editor makes.
pub const PRIMARY_MEMBER_ID: &'static str = "primary";

/// The file name suffix of a saved board assembly.
pub const BOARD_FILE_SUFFIX: &'static str = ".board.avrsim.json";

// ---------------------------------------------------------------------------
// Members, endpoints and labels
// ---------------------------------------------------------------------------

/// Identifies a port on the wiring canvas: its instance (none for the
/// primary member) and its name.
#[derive(Debug, Clone)]
pub struct PortCanvasKey {
    pub instance_id: Option<String>,
    pub port: String,
}

impl PortCanvasKey {
    pub fn from_endpoint(endpoint: &AttachmentEndpoint) -> (r: Self)
        ensures
            r.port@ == endpoint.port@,
            match endpoint.instance_id {
                Some(id) => r.instance_id matches Some(k) && k@ == id@,
                None => r.instance_id is None,
            },
    {
        let instance_id = match &endpoint.instance_id {
            Some(id) => Some(owned(id.as_str())),
            None => None,
        };
        PortCanvasKey { instance_id, port: owned(endpoint.port.as_str()) }
    }
}

/// A member's label when it has a non-blank one, else its name.
pub open spec fn spec_member_label(m: AssemblyMember) -> Seq<char> {
    match m.label {
        Some(l) => if spec_is_blank(l@) {
            m.name@
        } else {
            l@
        },
        None => m.name@,
    }
}

pub fn display_member_label(member: &AssemblyMember) -> (r: String)
    ensures
        r@ == spec_member_label(*member),
{
    match &member.label {
        Some(label) => {
            if is_blank(label.as_str()) {
                owned(member.name.as_str())
            } else {
                owned(label.as_str())
            }
        },
        None => owned(member.name.as_str()),
    }
}

/// Where a member's ports come from, in a word.
pub open spec fn spec_source_label(s: DefinitionSource) -> Seq<char> {
    match s.kind {
        DefinitionSourceKind::KicadPcb => "pcb"@,
        DefinitionSourceKind::BuiltinBoardModel => match s.builtin_name {
            Some(n) => n@,
            None => "built-in"@,
        },
        DefinitionSourceKind::Virtual => "virtual"@,
    }
}

/// The line under a member's title: its source, its number of ports, and
/// whether it carries firmware and a behavior.
pub open spec fn spec_member_subtitle(m: AssemblyMember) -> Seq<char> {
    spec_source_label(m.source) + " • "@ + spec_decimal(m.ports@.len()) + " ports"@ + (if m.firmware
        is Some {
        " fw"@
    } else {
        ""@
    }) + (if m.behavior is Some {
        " behavior"@
    } else {
        ""@
    })
}

pub fn member_subtitle(member: &AssemblyMember) -> (r: String)
    ensures
        r@ == spec_member_subtitle(*member),
{
    proof {
        reveal_strlit("");
    }
    let mut r = match member.source.kind {
        DefinitionSourceKind::KicadPcb => owned("pcb"),
        DefinitionSourceKind::BuiltinBoardModel => match &member.source.builtin_name {
            Some(n) => owned(n.as_str()),
            None => owned("built-in"),
        },
        DefinitionSourceKind::Virtual => owned("virtual"),
    };
    r.append(" • ");
    let count = string_of(&decimal(member.ports.len() as u64));
    r.append(count.as_str());
    r.append(" ports");
    if member.firmware.is_some() {
        r.append(" fw");
    }
    if member.behavior.is_some() {
        r.append(" behavior");
    }
    r
}

/// How an endpoint is shown: `Primary:<port>` or `<instance>:<port>`.
pub open spec fn spec_endpoint_display(e: AttachmentEndpoint) -> Seq<char> {
    match e.instance_id {
        None => "Primary:"@ + e.port@,
        Some(id) => id@ + ":"@ + e.port@,
    }
}

pub fn endpoint_display(endpoint: &AttachmentEndpoint) -> (r: String)
    ensures
        r@ == spec_endpoint_display(*endpoint),
{
    match &endpoint.instance_id {
        None => concat2("Primary:", endpoint.port.as_str()),
        Some(id) => {
            let mut r = concat2(id.as_str(), ":");
            r.append(endpoint.port.as_str());
            r
        },
    }
}

/// A letter, digit, `-` or `_`: the characters kept in generated names.
pub open spec fn is_name_char(c: char) -> bool {
    spec_is_alnum(c) || c == '-' || c == '_'
}

/// `s` with every character that is not a name character replaced by `fill`.
pub open spec fn fill_invalid(s: Seq<char>, fill: char) -> Seq<char> {
    s.map_values(|c: char| if is_name_char(c) { c } else { fill })
}

fn fill_invalid_chars(s: &Vec<char>, fill: char) -> (r: Vec<char>)
    ensures
        r@ == fill_invalid(s@, fill),
{
    let mut out: Vec<char> = Vec::new();
    let mut i: usize = 0;
    while i < s.len()
        invariant
            i <= s@.len(),
            out@ == fill_invalid(s@.take(i as int), fill),
        decreases s.len() - i,
    {
        let c = s[i];
        let kept = if is_alnum(c) || c == '-' || c == '_' {
            c
        } else {
            fill
        };
        out.push(kept);
        assert(out@ =~= fill_invalid(s@.take(i + 1), fill));
        i = i + 1;
    }
    assert(s@.take(s@.len() as int) =~= s@);
    out
}

/// The name an exported pin gets by default: the port's name, prefixed by
/// its instance and `_` for a child's port, with other characters than
/// letters, digits, `-` and `_` read as `_`.
pub open spec fn spec_default_export_name(e: AttachmentEndpoint) -> Seq<char> {
    let raw = match e.instance_id {
        None => e.port@,
        Some(id) => id@ + "_"@ + e.port@,
    };
    fill_invalid(raw, '_')
}

pub fn default_export_name_for_endpoint(endpoint: &AttachmentEndpoint) -> (r: String)
    ensures
        r@ == spec_default_export_name(*endpoint),
{
    let raw = match &endpoint.instance_id {
        None => owned(endpoint.port.as_str()),
        Some(id) => {
            let mut r = concat2(id.as_str(), "_");
            r.append(endpoint.port.as_str());
            r
        },
    };
    let chars = chars_of(raw.as_str());
    string_of(&fill_invalid_chars(&chars, '_'))
}

/// The endpoint of a member's port: a primary endpoint for the primary
/// member, a child endpoint otherwise.
pub fn member_endpoint(member: &AssemblyMember, port_name: &str) -> (r: AttachmentEndpoint)
    ensures
        r.port@ == port_name@,
        member.id@ == PRIMARY_MEMBER_ID@ ==> r.instance_id is None,
        member.id@ != PRIMARY_MEMBER_ID@ ==> (r.instance_id matches Some(id) && id@
            == member.id@),
{
    if str_eq(member.id.as_str(), PRIMARY_MEMBER_ID) {
        AttachmentEndpoint::primary(port_name)
    } else {
        AttachmentEndpoint::child(member.id.as_str(), port_name)
    }
}

// ---------------------------------------------------------------------------
// Files
// ---------------------------------------------------------------------------

/// Firmware is a sketch when the path's extension is `ino` in any case of
/// letters, else a HEX image.
pub open spec fn spec_infer_firmware_kind(path: Seq<char>) -> FirmwareSourceKind {
    match spec_extension(path) {
        Some(e) => if spec_lower_seq(e) == "ino"@ {
            FirmwareSourceKind::Ino
        } else {
            FirmwareSourceKind::Hex
        },
        None => FirmwareSourceKind::Hex,
    }
}

pub fn infer_firmware_kind(path: &str) -> (r: FirmwareSourceKind)
    ensures
        r == spec_infer_firmware_kind(path@),
{
    let ext = match file_name(path) {
        Some(n) => extension_of(&n),
        None => None,
    };
    match ext {
        Some(e) => {
            if is(&lower(&e), "ino") {
                FirmwareSourceKind::Ino
            } else {
                FirmwareSourceKind::Hex
            }
        },
        None => FirmwareSourceKind::Hex,
    }
}

/// A name usable in a file name: other characters than letters, digits,
/// `-` and `_` become `-`; a name left with dashes only (or nothing) is
/// replaced by `board-assembly`.
pub open spec fn spec_sanitize_board_name(name: Seq<char>) -> Seq<char> {
    let s = fill_invalid(name, '-');
    if forall|i: int| 0 <= i < s.len() ==> s[i] == '-' {
        "board-assembly"@
    } else {
        s
    }
}

pub fn sanitize_name(name: &str) -> (r: String)
    ensures
        r@ == spec_sanitize_board_name(name@),
{
    let chars = chars_of(name);
    let s = fill_invalid_chars(&chars, '-');
    let mut i: usize = 0;
    while i < s.len()
        invariant
            i <= s@.len(),
            s@ == fill_invalid(name@, '-'),
            forall|j: int| 0 <= j < i ==> s@[j] == '-',
        decreases s.len() - i,
    {
        if s[i] != '-' {
            assert(fill_invalid(name@, '-')[i as int] != '-');
            return string_of(&s);
        }
        i = i + 1;
    }
    owned("board-assembly")
}

pub fn default_board_file_name(name: &str) -> (r: String)
    ensures
        r@ == spec_sanitize_board_name(name@) + BOARD_FILE_SUFFIX@,
{
    let mut r = sanitize_name(name);
    r.append(BOARD_FILE_SUFFIX);
    r
}

/// A board file name without the first of the known suffixes it ends in:
/// `.board.avrsim.json`, `.board.avrsim`, `.avrsim.json`, `.avrsim`,
/// `.json`.
pub open spec fn spec_strip_board_suffix(name: Seq<char>) -> Seq<char> {
    match spec_strip_suffix(name, ".board.avrsim.json"@) {
        Some(s) => s,
        None => match spec_strip_suffix(name, ".board.avrsim"@) {
            Some(s) => s,
            None => match spec_strip_suffix(name, ".avrsim.json"@) {
                Some(s) => s,
                None => match spec_strip_suffix(name, ".avrsim"@) {
                    Some(s) => s,
                    None => match spec_strip_suffix(name, ".json"@) {
                        Some(s) => s,
                        None => name,
                    },
                },
            },
        },
    }
}

pub fn strip_board_file_suffix(name: &str) -> (r: String)
    ensures
        r@ == spec_strip_board_suffix(name@),
{
    let chars = chars_of(name);
    if let Some(s) = strip_suffix(&chars, ".board.avrsim.json") {
        return string_of(&s);
    }
    if let Some(s) = strip_suffix(&chars, ".board.avrsim") {
        return string_of(&s);
    }
    if let Some(s) = strip_suffix(&chars, ".avrsim.json") {
        return string_of(&s);
    }
    if let Some(s) = strip_suffix(&chars, ".avrsim") {
        return string_of(&s);
    }
    if let Some(s) = strip_suffix(&chars, ".json") {
        return string_of(&s);
    }
    owned(name)
}

/// Where a board assembly chosen as `path` is saved: in the same directory,
/// under the typed name without any known suffix (or the board's name when
/// nothing is left of it), sanitized, with the canonical suffix.
pub open spec fn spec_normalize_board_path(path: Seq<char>, board_name: Seq<char>) -> Seq<char> {
    let typed = match spec_file_name(path) {
        Some(n) => n,
        None => Seq::empty(),
    };
    let stem = spec_strip_board_suffix(typed);
    let normalized_stem = if spec_is_blank(stem) {
        spec_sanitize_board_name(board_name)
    } else {
        spec_sanitize_board_name(stem)
    };
    spec_with_file_name(path, normalized_stem + BOARD_FILE_SUFFIX@)
}

pub fn normalize_board_bundle_path(path: &str, board_name: &str) -> (r: String)
    ensures
        r@ == spec_normalize_board_path(path@, board_name@),
{
    let typed = match file_name(path) {
        Some(n) => string_of(&n),
        None => owned(""),
    };
    proof {
        reveal_strlit("");
    }
    let stem = strip_board_file_suffix(typed.as_str());
    let mut normalized = if is_blank(stem.as_str()) {
        sanitize_name(board_name)
    } else {
        sanitize_name(stem.as_str())
    };
    normalized.append(BOARD_FILE_SUFFIX);
    with_file_name(path, normalized.as_str())
}

// ---------------------------------------------------------------------------
// Comma separated lists and module models
// ---------------------------------------------------------------------------

/// The pieces of `s` between commas (one piece when there is none).
pub open spec fn comma_pieces(s: Seq<char>) -> Seq<Seq<char>>
    decreases s.len(),
{
    if s.len() == 0 {
        seq![Seq::empty()]
    } else {
        let p = comma_pieces(s.drop_last());
        if s.last() == ',' {
            p.push(Seq::empty())
        } else {
            p.update(p.len() - 1, p.last().push(s.last()))
        }
    }
}

pub proof fn lemma_comma_pieces_nonempty(s: Seq<char>)
    ensures
        comma_pieces(s).len() > 0,
    decreases s.len(),
{
    if s.len() > 0 {
        lemma_comma_pieces_nonempty(s.drop_last());
    }
}

/// The trimmed pieces that are not empty, in order.
pub open spec fn kept_trimmed(pieces: Seq<Seq<char>>) -> Seq<Seq<char>>
    decreases pieces.len(),
{
    if pieces.len() == 0 {
        Seq::empty()
    } else {
        let r = kept_trimmed(pieces.drop_last());
        let t = spec_trim(pieces.last());
        if t.len() > 0 {
            r.push(t)
        } else {
            r
        }
    }
}

/// The entries of a comma separated list, trimmed, without empty ones.
pub open spec fn spec_split_csv(value: Seq<char>) -> Seq<Seq<char>> {
    kept_trimmed(comma_pieces(value))
}

pub fn split_csv(value: &str) -> (r: Vec<String>)
    ensures
        views(r@) == spec_split_csv(value@),
{
    let chars = chars_of(value);
    let mut out: Vec<String> = Vec::new();
    let mut current: Vec<char> = Vec::new();
    let mut i: usize = 0;
    assert(chars@.take(0) =~= Seq::<char>::empty());
    while i < chars.len()
        invariant
            i <= chars@.len(),
            comma_pieces(chars@.take(i as int)).len() > 0,
            views(out@) == kept_trimmed(comma_pieces(chars@.take(i as int)).drop_last()),
            current@ == comma_pieces(chars@.take(i as int)).last(),
        decreases chars.len() - i,
    {
        let ghost p = comma_pieces(chars@.take(i as int));
        let ghost out0 = views(out@);
        assert(chars@.take(i + 1).drop_last() =~= chars@.take(i as int));
        let c = chars[i];
        if c == ',' {
            let t = trim(&current);
            if t.len() > 0 {
                out.push(string_of(&t));
                assert(views(out@) =~= out0.push(t@));
            }
            current = Vec::new();
            assert(comma_pieces(chars@.take(i + 1)).drop_last() =~= p);
            assert(p =~= p.drop_last().push(p.last()));
        } else {
            current.push(c);
            assert(comma_pieces(chars@.take(i + 1)).drop_last() =~= p.drop_last());
        }
        i = i + 1;
    }
    assert(chars@.take(chars@.len() as int) =~= chars@);
    let ghost p = comma_pieces(chars@);
    let ghost out0 = views(out@);
    assert(p =~= p.drop_last().push(p.last()));
    let t = trim(&current);
    if t.len() > 0 {
        out.push(string_of(&t));
        assert(views(out@) =~= out0.push(t@));
    }
    out
}

/// The first model name that is not a controller's (`arduino_` ones), or
/// `gy_sht31_d` when there is none.
pub open spec fn spec_default_module_name(names: Seq<Seq<char>>) -> Seq<char>
    decreases names.len(),
{
    if names.len() == 0 {
        "gy_sht31_d"@
    } else if !spec_starts_with(names[0], "arduino_"@) {
        names[0]
    } else {
        spec_default_module_name(names.drop_first())
    }
}

/// The model a new module starts from, among the built-in model names
/// `model_names` (in their catalogue's order).
pub fn default_builtin_module_name(model_names: &[String]) -> (r: String)
    ensures
        r@ == spec_default_module_name(views(model_names@)),
{
    let mut i: usize = 0;
    assert(views(model_names@).skip(0) =~= views(model_names@));
    while i < model_names.len()
        invariant
            i <= model_names@.len(),
            spec_default_module_name(views(model_names@)) == spec_default_module_name(
                views(model_names@).skip(i as int),
            ),
        decreases model_names.len() - i,
    {
        let ghost rest = views(model_names@).skip(i as int);
        assert(rest[0] == model_names@[i as int]@);
        assert(rest.drop_first() =~= views(model_names@).skip(i + 1));
        let name = chars_of(model_names[i].as_str());
        if !str_starts_with(&name, "arduino_") {
            return owned(model_names[i].as_str());
        }
        i = i + 1;
    }
    assert(views(model_names@).skip(i as int) =~= Seq::<Seq<char>>::empty());
    owned("gy_sht31_d")
}

// ---------------------------------------------------------------------------
// Ports from net names
// ---------------------------------------------------------------------------

/// `s` without its leading run of `c`.
pub open spec fn strip_leading(s: Seq<char>, c: char) -> Seq<char>
    decreases s.len(),
{
    if s.len() > 0 && s[0] == c {
        strip_leading(s.drop_first(), c)
    } else {
        s
    }
}

fn strip_leading_chars(s: &Vec<char>, c: char) -> (r: Vec<char>)
    ensures
        r@ == strip_leading(s@, c),
{
    let mut i: usize = 0;
    assert(s@.skip(0) =~= s@);
    while i < s.len() && s[i] == c
        invariant
            i <= s@.len(),
            strip_leading(s@, c) == strip_leading(s@.skip(i as int), c),
        decreases s.len() - i,
    {
        assert(s@.skip(i as int).drop_first() =~= s@.skip(i + 1));
        i = i + 1;
    }
    assert(s@.skip(i as int) =~= s@.subrange(i as int, s@.len() as int));
    slice(s, i, s.len())
}

/// The class and direction a port gets from its net name, read upper-cased
/// without leading `/`: ground and supply nets are power, bus and protocol
/// names are buses, analog looking names are analog, the rest digital.
pub open spec fn spec_classify_port(name: Seq<char>) -> (PortClass, PortDirection) {
    let u = spec_upper_seq(strip_leading(name, '/'));
    if u == "GND"@ || spec_contains(u, "GROUND"@) {
        (PortClass::Power, PortDirection::Passive)
    } else if (u.len() > 0 && u[0] == '+') || spec_contains(u, "VCC"@) || spec_contains(u, "VIN"@)
        || spec_contains(u, "24V"@) || spec_contains(u, "5V"@) || spec_contains(u, "3V3"@)
        || spec_contains(u, "IOREF"@) {
        (PortClass::Power, PortDirection::Passive)
    } else if spec_contains(u, "CAN"@) || spec_contains(u, "SDA"@) || spec_contains(u, "SCL"@)
        || spec_contains(u, "MISO"@) || spec_contains(u, "MOSI"@) || spec_contains(u, "SCK"@)
        || spec_ends_with(u, "_TX"@) || spec_ends_with(u, "_RX"@) || spec_contains(u, "UART"@)
        || spec_contains(u, "SPI"@) || spec_contains(u, "I2C"@) || spec_contains(u, "MODBUS"@)
        || spec_contains(u, "RS485"@) {
        (PortClass::Bus, PortDirection::Bidirectional)
    } else if (u.len() > 0 && u[0] == 'A') || spec_contains(u, "ADC"@) || spec_contains(u, "_RAW"@)
        || spec_ends_with(u, "_U"@) || spec_ends_with(u, "_Y"@) || spec_contains(u, "ANALOG"@) {
        (PortClass::Analog, PortDirection::Bidirectional)
    } else {
        (PortClass::Digital, PortDirection::Bidirectional)
    }
}

pub fn classify_port(name: &str) -> (r: (PortClass, PortDirection))
    ensures
        r == spec_classify_port(name@),
{
    let u = upper(&strip_leading_chars(&chars_of(name), '/'));
    if is(&u, "GND") || str_contains(&u, "GROUND") {
        return (PortClass::Power, PortDirection::Passive);
    }
    if (u.len() > 0 && u[0] == '+') || str_contains(&u, "VCC") || str_contains(&u, "VIN")
        || str_contains(&u, "24V") || str_contains(&u, "5V") || str_contains(&u, "3V3")
        || str_contains(&u, "IOREF") {
        return (PortClass::Power, PortDirection::Passive);
    }
    if str_contains(&u, "CAN") || str_contains(&u, "SDA") || str_contains(&u, "SCL")
        || str_contains(&u, "MISO") || str_contains(&u, "MOSI") || str_contains(&u, "SCK")
        || str_ends_with(&u, "_TX") || str_ends_with(&u, "_RX") || str_contains(&u, "UART")
        || str_contains(&u, "SPI") || str_contains(&u, "I2C") || str_contains(&u, "MODBUS")
        || str_contains(&u, "RS485") {
        return (PortClass::Bus, PortDirection::Bidirectional);
    }
    if (u.len() > 0 && u[0] == 'A') || str_contains(&u, "ADC") || str_contains(&u, "_RAW")
        || str_ends_with(&u, "_U") || str_ends_with(&u, "_Y") || str_contains(&u, "ANALOG") {
        return (PortClass::Analog, PortDirection::Bidirectional);
    }
    (PortClass::Digital, PortDirection::Bidirectional)
}

/// The net names that become ports: the non-blank ones, each once, in the
/// order they first appear.
pub open spec fn net_port_names(names: Seq<Seq<char>>) -> Seq<Seq<char>>
    decreases names.len(),
{
    if names.len() == 0 {
        Seq::empty()
    } else {
        let prev = net_port_names(names.drop_last());
        let n = names.last();
        if spec_is_blank(n) || prev.contains(n) {
            prev
        } else {
            prev.push(n)
        }
    }
}

/// `ports` are those derived from the net names: one per distinct
/// non-blank name, classified by its name, with no aliases.
pub open spec fn ports_derived(ports: Seq<PortDefinition>, names: Seq<Seq<char>>) -> bool {
    &&& ports.len() == net_port_names(names).len()
    &&& forall|i: int|
        0 <= i < ports.len() ==> {
            let n = #[trigger] net_port_names(names)[i];
            &&& ports[i].name@ == n
            &&& (ports[i].class, ports[i].direction) == spec_classify_port(n)
            &&& ports[i].aliases@.len() == 0
            &&& ports[i].note is None
        }
}

/// One port per distinct non-blank net name, classified by its name, with
/// no aliases.
pub fn derive_ports_from_net_names(names: &[String]) -> (r: Vec<PortDefinition>)
    ensures
        ports_derived(r@, views(names@)),
{
    let mut seen: Vec<String> = Vec::new();
    let mut ports: Vec<PortDefinition> = Vec::new();
    let mut i: usize = 0;
    while i < names.len()
        invariant
            i <= names@.len(),
            views(seen@) == net_port_names(views(names@).take(i as int)),
            ports@.len() == seen@.len(),
            forall|k: int|
                #![trigger ports@[k]]
                0 <= k < ports@.len() ==> {
                    &&& ports@[k].name@ == seen@[k]@
                    &&& (ports@[k].class, ports@[k].direction) == spec_classify_port(seen@[k]@)
                    &&& ports@[k].aliases@.len() == 0
                    &&& ports@[k].note is None
                },
        decreases names.len() - i,
    {
        let ghost before = views(seen@);
        assert(views(names@).take(i + 1).drop_last() =~= views(names@).take(i as int));
        assert(views(names@).take(i + 1).last() == names@[i as int]@);
        let name = names[i].as_str();
        if !is_blank(name) && !contains_str(seen.as_slice(), name) {
            let (class, direction) = classify_port(name);
            ports.push(PortDefinition::new(name, class, direction));
            seen.push(owned(name));
            assert(views(seen@) =~= before.push(name@));
        }
        i = i + 1;
    }
    assert(views(names@).take(names@.len() as int) =~= views(names@));
    ports
}

// ---------------------------------------------------------------------------
// Header pins of the example boards
// ---------------------------------------------------------------------------

/// The Mega pin wired to digital header pad `pad` (3 to 34): pads pair up
/// from D52/D53 downwards, the odd pad of a pair taking the even pin.
pub open spec fn header_digital_pin(pad: int) -> int {
    let base = 52 - ((pad - 3) / 2) * 2;
    if pad % 2 == 1 {
        base
    } else {
        base + 1
    }
}

/// The controller signal behind a normalized header pad name
/// `<reference>_<pad>`: auxiliary pads 1 to 8 are A8 to A15; on the digital
/// header pads 1 and 2 are ground, 3 to 34 digital pins, 35 and 36 the 5 V
/// supply.
pub open spec fn spec_header_alias(n: Seq<char>) -> Option<Seq<char>> {
    let k = last_index_of(n, '_');
    if k < 0 {
        None
    } else {
        let reference = n.take(k);
        match spec_parse_u8(n.skip(k + 1)) {
            None => None,
            Some(pad) => if reference == "P_AUX"@ {
                if 1 <= pad <= 8 {
                    Some("A"@ + spec_decimal((pad + 7) as nat))
                } else {
                    None
                }
            } else if reference == "P_DIG"@ {
                if pad == 1 || pad == 2 {
                    Some("GND"@)
                } else if 3 <= pad <= 34 {
                    Some("D"@ + spec_decimal(header_digital_pin(pad as int) as nat))
                } else if pad == 35 || pad == 36 {
                    Some("+5V"@)
                } else {
                    None
                }
            } else {
                None
            },
        }
    }
}

fn last_index(s: &Vec<char>, c: char) -> (r: Option<usize>)
    ensures
        match r {
            Some(k) => k == last_index_of(s@, c) && k < s@.len(),
            None => last_index_of(s@, c) == -1,
        },
{
    let mut i: usize = s.len();
    assert(s@.take(i as int) =~= s@);
    while i > 0
        invariant
            i <= s@.len(),
            last_index_of(s@, c) == last_index_of(s@.take(i as int), c),
        decreases i,
    {
        assert(s@.take(i as int).drop_last() =~= s@.take(i - 1));
        if s[i - 1] == c {
            return Some(i - 1);
        }
        i = i - 1;
    }
    None
}

fn header_alias_chars(n: &Vec<char>) -> (r: Option<Vec<char>>)
    ensures
        match r {
            Some(m) => spec_header_alias(n@) == Some(m@),
            None => spec_header_alias(n@) is None,
        },
{
    let k = match last_index(n, '_') {
        Some(k) => k,
        None => {
            return None;
        },
    };
    let reference = slice(n, 0, k);
    let pad_text = slice(n, k + 1, n.len());
    assert(reference@ =~= n@.take(k as int));
    assert(pad_text@ =~= n@.skip(k + 1));
    let pad = match parse_u8(&pad_text) {
        Some(p) => p,
        None => {
            return None;
        },
    };
    let mut out: Vec<char> = Vec::new();
    if is(&reference, "P_AUX") {
        if 1 <= pad && pad <= 8 {
            out.push('A');
            push_all(&mut out, &decimal((pad + 7) as u64));
            proof {
                reveal_strlit("A");
                assert(out@ =~= "A"@ + spec_decimal((pad + 7) as nat));
            }
            return Some(out);
        }
        return None;
    }
    if is(&reference, "P_DIG") {
        if pad == 1 || pad == 2 {
            return Some(chars_of("GND"));
        }
        if 3 <= pad && pad <= 34 {
            let pair_index: u8 = (pad - 3) / 2;
            let base: u8 = 52 - pair_index * 2;
            let signal: u8 = if pad % 2 == 1 {
                base
            } else {
                base + 1
            };
            assert(signal as int == header_digital_pin(pad as int));
            out.push('D');
            push_all(&mut out, &decimal(signal as u64));
            proof {
                reveal_strlit("D");
                assert(out@ =~= "D"@ + spec_decimal(signal as nat));
            }
            return Some(out);
        }
        if pad == 35 || pad == 36 {
            return Some(chars_of("+5V"));
        }
        return None;
    }
    None
}

/// The controller signal behind a header pad name such as `P_DIG_33`
/// (see `spec_header_alias`).
pub fn example_header_alias_signal(normalized: &str) -> (r: Option<String>)
    ensures
        match r {
            Some(m) => spec_header_alias(normalized@) == Some(m@),
            None => spec_header_alias(normalized@) is None,
        },
{
    match header_alias_chars(&chars_of(normalized)) {
        Some(m) => Some(string_of(&m)),
        None => None,
    }
}

// ---------------------------------------------------------------------------
// The forms a port name is known by
// ---------------------------------------------------------------------------

/// The names a list holds, as a set.
pub open spec fn form_set(v: Seq<String>) -> Set<Seq<char>> {
    Set::new(|x: Seq<char>| views(v).contains(x))
}

/// A list standing for a set of forms holds no name twice.
pub open spec fn forms_wf(v: Seq<String>) -> bool {
    views(v).no_duplicates()
}

fn insert_form(forms: &mut Vec<String>, f: String)
    requires
        forms_wf(old(forms)@),
    ensures
        forms_wf(final(forms)@),
        form_set(final(forms)@) == form_set(old(forms)@).insert(f@),
{
    let ghost before = views(forms@);
    let ghost fv = f@;
    if !contains_str(forms.as_slice(), f.as_str()) {
        forms.push(f);
        assert(views(forms@) =~= before.push(fv));
        assert forall|i: int, j: int|
            0 <= i < views(forms@).len() && 0 <= j < views(forms@).len() && i != j implies
            views(forms@)[i] != views(forms@)[j] by {
            if i < before.len() && j < before.len() {
                assert(before[i] != before[j]);
            } else if i < before.len() {
                assert(before.contains(before[i]));
            } else {
                assert(before.contains(before[j]));
            }
        }
    }
    assert forall|x: Seq<char>| #[trigger] views(forms@).contains(x) <==> (before.contains(x) || x
        == fv) by {
        if x == fv && !before.contains(x) {
            assert(views(forms@)[before.len() as int] == fv);
        }
        if before.contains(x) {
            let j = choose|j: int| 0 <= j < before.len() && before[j] == x;
            assert(views(forms@)[j] == x);
        }
    }
    assert(form_set(forms@) =~= form_set(old(forms)@).insert(fv));
}

/// `-`, `.` and `:`, which a form reads as `_`.
pub open spec fn is_sep(c: char) -> bool {
    c == '-' || c == '.' || c == ':'
}

/// A raw name as forms are made of it: trimmed, without leading `/` and
/// then `*`, upper-cased, separators read as `_`.
pub open spec fn spec_normalize_form(raw: Seq<char>) -> Seq<char> {
    spec_upper_seq(strip_leading(strip_leading(spec_trim(raw), '/'), '*')).map_values(
        |c: char|
            if is_sep(c) {
                '_'
            } else {
                c
            },
    )
}

fn normalize_form(raw: &str) -> (r: Vec<char>)
    ensures
        r@ == spec_normalize_form(raw@),
{
    let t = trim(&chars_of(raw));
    let u = upper(&strip_leading_chars(&strip_leading_chars(&t, '/'), '*'));
    let mut out: Vec<char> = Vec::new();
    let mut i: usize = 0;
    while i < u.len()
        invariant
            i <= u@.len(),
            out@ == u@.take(i as int).map_values(
                |c: char|
                    if is_sep(c) {
                        '_'
                    } else {
                        c
                    },
            ),
        decreases u.len() - i,
    {
        let c = u[i];
        if c == '-' || c == '.' || c == ':' {
            out.push('_');
        } else {
            out.push(c);
        }
        assert(out@ =~= u@.take(i + 1).map_values(
            |c: char|
                if is_sep(c) {
                    '_'
                } else {
                    c
                },
        ));
        i = i + 1;
    }
    assert(u@.take(u@.len() as int) =~= u@);
    out
}

/// `s` without any `c`.
pub open spec fn without_char(s: Seq<char>, c: char) -> Seq<char>
    decreases s.len(),
{
    if s.len() == 0 {
        s
    } else {
        let r = without_char(s.drop_last(), c);
        if s.last() == c {
            r
        } else {
            r.push(s.last())
        }
    }
}

fn without_char_chars(s: &Vec<char>, c: char) -> (r: Vec<char>)
    ensures
        r@ == without_char(s@, c),
{
    let mut out: Vec<char> = Vec::new();
    let mut i: usize = 0;
    while i < s.len()
        invariant
            i <= s@.len(),
            out@ == without_char(s@.take(i as int), c),
        decreases s.len() - i,
    {
        assert(s@.take(i + 1).drop_last() =~= s@.take(i as int));
        if s[i] != c {
            out.push(s[i]);
        }
        i = i + 1;
    }
    assert(s@.take(s@.len() as int) =~= s@);
    out
}

/// The scan behind `alnum_runs`: the finished runs and the run being read.
pub open spec fn run_fold(s: Seq<char>) -> (Seq<Seq<char>>, Seq<char>)
    decreases s.len(),
{
    if s.len() == 0 {
        (Seq::empty(), Seq::empty())
    } else {
        let prev = run_fold(s.drop_last());
        let c = s.last();
        if spec_is_alnum(c) {
            (prev.0, prev.1.push(c))
        } else if prev.1.len() > 0 {
            (prev.0.push(prev.1), Seq::empty())
        } else {
            (prev.0, Seq::empty())
        }
    }
}

/// The maximal runs of letters and digits of `s`, in order.
pub open spec fn alnum_runs(s: Seq<char>) -> Seq<Seq<char>> {
    let st = run_fold(s);
    if st.1.len() > 0 {
        st.0.push(st.1)
    } else {
        st.0
    }
}

fn alnum_runs_of(s: &Vec<char>) -> (r: Vec<Vec<char>>)
    ensures
        cviews(r@) == alnum_runs(s@),
{
    let mut runs: Vec<Vec<char>> = Vec::new();
    let mut current: Vec<char> = Vec::new();
    let mut i: usize = 0;
    while i < s.len()
        invariant
            i <= s@.len(),
            (cviews(runs@), current@) == run_fold(s@.take(i as int)),
        decreases s.len() - i,
    {
        assert(s@.take(i + 1).drop_last() =~= s@.take(i as int));
        let ghost runs0 = cviews(runs@);
        let ghost cur0 = current@;
        let c = s[i];
        if is_alnum(c) {
            current.push(c);
        } else if current.len() > 0 {
            let finished = current;
            runs.push(finished);
            current = Vec::new();
            assert(cviews(runs@) =~= runs0.push(cur0));
        }
        i = i + 1;
    }
    assert(s@.take(s@.len() as int) =~= s@);
    if current.len() > 0 {
        let ghost runs0 = cviews(runs@);
        let ghost cur0 = current@;
        runs.push(current);
        assert(cviews(runs@) =~= runs0.push(cur0));
    }
    runs
}

/// Protocol role names a token also stands for.
pub open spec fn role_forms(t: Seq<char>) -> Set<Seq<char>> {
    if t == "SS"@ || t == "CS"@ || t == "NSS"@ {
        set!["SS"@, "CS"@]
    } else if t == "SI"@ || t == "SDI"@ || t == "MOSI"@ {
        set!["MOSI"@]
    } else if t == "SO"@ || t == "SDO"@ || t == "MISO"@ {
        set!["MISO"@]
    } else if t == "CLK"@ || t == "SCLK"@ || t == "SCK"@ {
        set!["SCK"@]
    } else if t == "CANH"@ || t == "CAN_H"@ {
        set!["CANH"@]
    } else if t == "CANL"@ || t == "CAN_L"@ {
        set!["CANL"@]
    } else if t == "GROUND"@ {
        set!["GND"@]
    } else if t == "VDD"@ {
        set!["VCC"@]
    } else {
        Set::empty()
    }
}

/// The forms one token adds: itself, `D<n>` for a number, and its roles.
pub open spec fn token_forms(t: Seq<char>) -> Set<Seq<char>> {
    let own = set![t].union(role_forms(t));
    if spec_all_digits(t) {
        own.insert("D"@ + t)
    } else {
        own
    }
}

pub open spec fn tokens_forms(ts: Seq<Seq<char>>) -> Set<Seq<char>>
    decreases ts.len(),
{
    if ts.len() == 0 {
        Set::empty()
    } else {
        tokens_forms(ts.drop_last()).union(token_forms(ts.last()))
    }
}

/// The forms of a normalized name itself: the name, and for a `+` supply
/// its voltage without `+` and `_`.
pub open spec fn base_forms(n: Seq<char>) -> Set<Seq<char>> {
    let voltage = without_char(strip_leading(n, '+'), '_');
    let supply = if n.len() > 0 && n[0] == '+' && voltage.len() > 0 {
        set![voltage]
    } else {
        Set::empty()
    };
    if n.len() > 0 {
        supply.insert(n)
    } else {
        supply
    }
}

/// `ADC<n>` for an analog signal `A<n>`.
pub open spec fn adc_forms(m: Seq<char>) -> Set<Seq<char>> {
    if m.len() > 1 && m[0] == 'A' && spec_all_digits(m.drop_first()) {
        set!["ADC"@ + m.drop_first()]
    } else {
        Set::empty()
    }
}

/// The forms of a controller signal name (which names no header pad).
pub open spec fn signal_forms(m: Seq<char>) -> Set<Seq<char>> {
    base_forms(m).union(tokens_forms(alnum_runs(m)))
}

/// Every form a raw port name or alias is known by: the normalized name
/// and its supply voltage; for a header pad, the forms of the controller
/// signal behind it (and `ADC<n>` for `A<n>`); otherwise each run of
/// letters and digits with its number and role forms.
pub open spec fn spec_name_forms(raw: Seq<char>) -> Set<Seq<char>> {
    if spec_trim(raw).len() == 0 {
        Set::empty()
    } else {
        let n = spec_normalize_form(raw);
        base_forms(n).union(
            match spec_header_alias(n) {
                Some(m) => signal_forms(m).union(adc_forms(m)),
                None => tokens_forms(alnum_runs(n)),
            },
        )
    }
}

/// How deep the forms of a raw name look: one level more for a header pad.
pub open spec fn form_depth(raw: Seq<char>) -> nat {
    if spec_trim(raw).len() > 0 && spec_header_alias(spec_normalize_form(raw)) is Some {
        1
    } else {
        0
    }
}

/// A character of a controller signal name: an upper-case letter, a digit
/// or `+`.
pub open spec fn is_signal_char(c: char) -> bool {
    ('A' <= c && c <= 'Z') || spec_is_digit(c) || c == '+'
}

proof fn lemma_decimal_digits(n: nat)
    ensures
        spec_decimal(n).len() > 0,
        forall|i: int| 0 <= i < spec_decimal(n).len() ==> spec_is_digit(#[trigger] spec_decimal(n)[i]),
    decreases n,
{
    if n >= 10 {
        lemma_decimal_digits(n / 10);
        let s = spec_decimal(n);
        assert forall|i: int| 0 <= i < s.len() implies spec_is_digit(#[trigger] s[i]) by {
            if i < s.len() - 1 {
                assert(s[i] == spec_decimal(n / 10)[i]);
            }
        }
    }
}

proof fn lemma_no_char_last_index(s: Seq<char>, c: char)
    requires
        forall|i: int| 0 <= i < s.len() ==> s[i] != c,
    ensures
        last_index_of(s, c) == -1,
    decreases s.len(),
{
    if s.len() > 0 {
        lemma_no_char_last_index(s.drop_last(), c);
    }
}

proof fn lemma_signal_name_plain(m: Seq<char>)
    requires
        m.len() > 0,
        forall|i: int| 0 <= i < m.len() ==> is_signal_char(#[trigger] m[i]),
    ensures
        spec_trim(m) == m,
        spec_normalize_form(m) == m,
        spec_header_alias(m) is None,
{
    assert(spec_trim_start(m) == m);
    assert(spec_trim_end(m) == m);
    assert(strip_leading(m, '/') == m);
    assert(strip_leading(m, '*') == m);
    assert(spec_upper_seq(m) =~= m);
    assert(spec_normalize_form(m) =~= m);
    lemma_no_char_last_index(m, '_');
}

/// A header pad names a controller signal, whose own forms name no further
/// pad: the forms of that signal are `signal_forms`.
proof fn lemma_header_signal(n: Seq<char>)
    requires
        spec_header_alias(n) is Some,
    ensures
        form_depth(spec_header_alias(n)->0) == 0,
        spec_name_forms(spec_header_alias(n)->0) == signal_forms(spec_header_alias(n)->0),
{
    let m = spec_header_alias(n)->0;
    reveal_strlit("A");
    reveal_strlit("D");
    reveal_strlit("GND");
    reveal_strlit("+5V");
    let k = last_index_of(n, '_');
    let pad = spec_parse_u8(n.skip(k + 1))->0;
    if n.take(k) == "P_AUX"@ {
        lemma_decimal_digits((pad + 7) as nat);
        let d = spec_decimal((pad + 7) as nat);
        assert forall|i: int| 0 <= i < m.len() implies is_signal_char(#[trigger] m[i]) by {
            if i > 0 {
                assert(m[i] == d[i - 1]);
            }
        }
    } else if 3 <= pad <= 34 {
        lemma_decimal_digits(header_digital_pin(pad as int) as nat);
        let d = spec_decimal(header_digital_pin(pad as int) as nat);
        assert forall|i: int| 0 <= i < m.len() implies is_signal_char(#[trigger] m[i]) by {
            if i > 0 {
                assert(m[i] == d[i - 1]);
            }
        }
    } else {
        assert forall|i: int| 0 <= i < m.len() implies is_signal_char(#[trigger] m[i]) by {}
    }
    lemma_signal_name_plain(m);
}

fn add_token_forms(forms: &mut Vec<String>, t: &Vec<char>)
    requires
        forms_wf(old(forms)@),
    ensures
        forms_wf(final(forms)@),
        form_set(final(forms)@) == form_set(old(forms)@).union(token_forms(t@)),
{
    let ghost start = form_set(forms@);
    let text = string_of(t);
    insert_form(forms, owned(text.as_str()));
    if all_digits(t) {
        insert_form(forms, concat2("D", text.as_str()));
    }
    if is(t, "SS") || is(t, "CS") || is(t, "NSS") {
        insert_form(forms, owned("SS"));
        insert_form(forms, owned("CS"));
    } else if is(t, "SI") || is(t, "SDI") || is(t, "MOSI") {
        insert_form(forms, owned("MOSI"));
    } else if is(t, "SO") || is(t, "SDO") || is(t, "MISO") {
        insert_form(forms, owned("MISO"));
    } else if is(t, "CLK") || is(t, "SCLK") || is(t, "SCK") {
        insert_form(forms, owned("SCK"));
    } else if is(t, "CANH") || is(t, "CAN_H") {
        insert_form(forms, owned("CANH"));
    } else if is(t, "CANL") || is(t, "CAN_L") {
        insert_form(forms, owned("CANL"));
    } else if is(t, "GROUND") {
        insert_form(forms, owned("GND"));
    } else if is(t, "VDD") {
        insert_form(forms, owned("VCC"));
    }
    assert(form_set(forms@) =~= start.union(token_forms(t@)));
}

/// Adds to `forms` every form of the raw name `raw` (see `spec_name_forms`).
pub fn collect_name_forms(raw: &str, forms: &mut Vec<String>)
    requires
        forms_wf(old(forms)@),
    ensures
        forms_wf(final(forms)@),
        form_set(final(forms)@) == form_set(old(forms)@).union(spec_name_forms(raw@)),
    decreases form_depth(raw@),
{
    let ghost start = form_set(forms@);
    let trimmed = trim(&chars_of(raw));
    if trimmed.len() == 0 {
        assert(form_set(forms@) =~= start.union(spec_name_forms(raw@)));
        return;
    }
    let n = normalize_form(raw);
    if n.len() > 0 && n[0] == '+' {
        let voltage = without_char_chars(&strip_leading_chars(&n, '+'), '_');
        if voltage.len() > 0 {
            insert_form(forms, string_of(&voltage));
        }
    }
    if n.len() > 0 {
        insert_form(forms, string_of(&n));
    }
    assert(form_set(forms@) =~= start.union(base_forms(n@)));
    let ghost with_base = form_set(forms@);
    match header_alias_chars(&n) {
        Some(m) => {
            proof {
                lemma_header_signal(n@);
            }
            let signal = string_of(&m);
            collect_name_forms(signal.as_str(), forms);
            let ghost with_signal = form_set(forms@);
            if m.len() > 1 && m[0] == 'A' {
                let rest = slice(&m, 1, m.len());
                assert(rest@ =~= m@.drop_first());
                if all_digits(&rest) {
                    let digits = string_of(&rest);
                    insert_form(forms, concat2("ADC", digits.as_str()));
                }
            }
            assert(form_set(forms@) =~= with_signal.union(adc_forms(m@)));
            assert(form_set(forms@) =~= start.union(spec_name_forms(raw@)));
            return;
        },
        None => {},
    }
    let tokens = alnum_runs_of(&n);
    let mut j: usize = 0;
    assert(cviews(tokens@).take(0) =~= Seq::<Seq<char>>::empty());
    while j < tokens.len()
        invariant
            j <= tokens@.len(),
            forms_wf(forms@),
            form_set(forms@) == with_base.union(tokens_forms(cviews(tokens@).take(j as int))),
        decreases tokens.len() - j,
    {
        let ghost before = form_set(forms@);
        add_token_forms(forms, &tokens[j]);
        assert(cviews(tokens@).take(j + 1).drop_last() =~= cviews(tokens@).take(j as int));
        assert(cviews(tokens@).take(j + 1).last() == tokens@[j as int]@);
        assert(form_set(forms@) =~= with_base.union(
            tokens_forms(cviews(tokens@).take(j + 1)),
        ));
        j = j + 1;
    }
    assert(cviews(tokens@).take(tokens@.len() as int) =~= cviews(tokens@));
    assert(form_set(forms@) =~= start.union(spec_name_forms(raw@)));
}

/// The forms of a list of aliases.
pub open spec fn alias_forms(aliases: Seq<Seq<char>>) -> Set<Seq<char>>
    decreases aliases.len(),
{
    if aliases.len() == 0 {
        Set::empty()
    } else {
        alias_forms(aliases.drop_last()).union(spec_name_forms(aliases.last()))
    }
}

/// Every form a port is known by: those of its name and of its aliases.
pub open spec fn spec_port_forms(p: PortDefinition) -> Set<Seq<char>> {
    spec_name_forms(p.name@).union(alias_forms(views(p.aliases@)))
}

/// The forms of a port, each once.
pub fn port_match_forms(port: &PortDefinition) -> (r: Vec<String>)
    ensures
        forms_wf(r@),
        form_set(r@) == spec_port_forms(*port),
{
    let mut forms: Vec<String> = Vec::new();
    assert(form_set(forms@) =~= Set::<Seq<char>>::empty());
    collect_name_forms(port.name.as_str(), &mut forms);
    let ghost named = form_set(forms@);
    let mut i: usize = 0;
    assert(views(port.aliases@).take(0) =~= Seq::<Seq<char>>::empty());
    while i < port.aliases.len()
        invariant
            i <= port.aliases@.len(),
            forms_wf(forms@),
            named == spec_name_forms(port.name@),
            form_set(forms@) == named.union(alias_forms(views(port.aliases@).take(i as int))),
        decreases port.aliases.len() - i,
    {
        collect_name_forms(port.aliases[i].as_str(), &mut forms);
        assert(views(port.aliases@).take(i + 1).drop_last() =~= views(port.aliases@).take(
            i as int,
        ));
        assert(views(port.aliases@).take(i + 1).last() == port.aliases@[i as int]@);
        assert(form_set(forms@) =~= named.union(alias_forms(views(port.aliases@).take(i + 1))));
        i = i + 1;
    }
    assert(views(port.aliases@).take(port.aliases@.len() as int) =~= views(port.aliases@));
    forms
}

// ---------------------------------------------------------------------------
// Matching a module's ports to the controller's
// ---------------------------------------------------------------------------

/// Whether two sets of forms have one in common.
pub open spec fn shares_form(a: Set<Seq<char>>, b: Set<Seq<char>>) -> bool {
    exists|x: Seq<char>| a.contains(x) && b.contains(x)
}

/// How well a controller port with forms `p` matches a module port with
/// forms `c`: 100 when they share a form; otherwise 86 for a module `VCC`
/// against a controller `5V`, 72 against a `3V3`; else 0.
pub open spec fn spec_form_score(p: Set<Seq<char>>, c: Set<Seq<char>>) -> int {
    if shares_form(p, c) {
        100
    } else if c.contains("VCC"@) && p.contains("5V"@) {
        86
    } else if c.contains("VCC"@) && p.contains("3V3"@) {
        72
    } else {
        0
    }
}

pub open spec fn spec_port_match_score(primary: PortDefinition, child: PortDefinition) -> int {
    spec_form_score(spec_port_forms(primary), spec_port_forms(child))
}

fn forms_share(a: &Vec<String>, b: &Vec<String>) -> (r: bool)
    ensures
        r == shares_form(form_set(a@), form_set(b@)),
{
    let mut i: usize = 0;
    while i < a.len()
        invariant
            i <= a@.len(),
            forall|k: int| 0 <= k < i ==> !views(b@).contains(#[trigger] views(a@)[k]),
        decreases a.len() - i,
    {
        if contains_str(b.as_slice(), a[i].as_str()) {
            assert(views(a@)[i as int] == a@[i as int]@);
            assert(form_set(a@).contains(a@[i as int]@));
            return true;
        }
        assert(views(a@)[i as int] == a@[i as int]@);
        i = i + 1;
    }
    assert forall|x: Seq<char>| !(form_set(a@).contains(x) && form_set(b@).contains(x)) by {
        if form_set(a@).contains(x) {
            let k = choose|k: int| 0 <= k < views(a@).len() && views(a@)[k] == x;
        }
    }
    false
}

/// Whether a form starting with `prefix` is among both sets of forms.
pub fn shared_prefixed_form(primary_forms: &Vec<String>, child_forms: &Vec<String>, prefix: char) -> (r:
    bool)
    ensures
        r == exists|x: Seq<char>|
            form_set(primary_forms@).contains(x) && form_set(child_forms@).contains(x) && x.len()
                > 0 && x[0] == prefix,
{
    let mut i: usize = 0;
    while i < primary_forms.len()
        invariant
            i <= primary_forms@.len(),
            forall|k: int|
                0 <= k < i ==> !({
                    let x = #[trigger] views(primary_forms@)[k];
                    views(child_forms@).contains(x) && x.len() > 0 && x[0] == prefix
                }),
        decreases primary_forms.len() - i,
    {
        let form = chars_of(primary_forms[i].as_str());
        assert(views(primary_forms@)[i as int] == primary_forms@[i as int]@);
        if form.len() > 0 && form[0] == prefix && contains_str(
            child_forms.as_slice(),
            primary_forms[i].as_str(),
        ) {
            assert(form_set(primary_forms@).contains(primary_forms@[i as int]@));
            return true;
        }
        i = i + 1;
    }
    assert forall|x: Seq<char>|
        !(form_set(primary_forms@).contains(x) && form_set(child_forms@).contains(x) && x.len() > 0
            && x[0] == prefix) by {
        if form_set(primary_forms@).contains(x) {
            let k = choose|k: int| 0 <= k < views(primary_forms@).len() && views(primary_forms@)[k] == x;
        }
    }
    false
}

/// Whether a set of forms holds `name`.
fn has_form(forms: &Vec<String>, name: &str) -> (r: bool)
    ensures
        r == form_set(forms@).contains(name@),
{
    contains_str(forms.as_slice(), name)
}

/// How well a controller port matches a module port (see `spec_form_score`).
pub fn port_match_score(primary_port: &PortDefinition, child_port: &PortDefinition) -> (r: i32)
    ensures
        r == spec_port_match_score(*primary_port, *child_port),
{
    let primary_forms = port_match_forms(primary_port);
    let child_forms = port_match_forms(child_port);
    let ghost p = form_set(primary_forms@);
    let ghost c = form_set(child_forms@);
    let shared = forms_share(&primary_forms, &child_forms);
    let mut best: i32 = 0;
    if shared {
        best = 100;
    }
    if shared_prefixed_form(&primary_forms, &child_forms, 'D') && best < 96 {
        best = 96;
    }
    if shared_prefixed_form(&primary_forms, &child_forms, 'A') && best < 96 {
        best = 96;
    }
    if has_form(&primary_forms, "SCK") && has_form(&child_forms, "SCK") && best < 90 {
        assert(p.contains("SCK"@) && c.contains("SCK"@));
        best = 90;
    }
    if has_form(&primary_forms, "MOSI") && has_form(&child_forms, "MOSI") && best < 90 {
        assert(p.contains("MOSI"@) && c.contains("MOSI"@));
        best = 90;
    }
    if has_form(&primary_forms, "MISO") && has_form(&child_forms, "MISO") && best < 90 {
        assert(p.contains("MISO"@) && c.contains("MISO"@));
        best = 90;
    }
    if has_form(&primary_forms, "SDA") && has_form(&child_forms, "SDA") && best < 90 {
        assert(p.contains("SDA"@) && c.contains("SDA"@));
        best = 90;
    }
    if has_form(&primary_forms, "SCL") && has_form(&child_forms, "SCL") && best < 90 {
        assert(p.contains("SCL"@) && c.contains("SCL"@));
        best = 90;
    }
    if has_form(&primary_forms, "CS") && has_form(&child_forms, "CS") && best < 88 {
        assert(p.contains("CS"@) && c.contains("CS"@));
        best = 88;
    }
    if has_form(&primary_forms, "GND") && has_form(&child_forms, "GND") && best < 92 {
        assert(p.contains("GND"@) && c.contains("GND"@));
        best = 92;
    }
    if has_form(&child_forms, "VCC") && has_form(&primary_forms, "5V") && best < 86 {
        best = 86;
    }
    if has_form(&child_forms, "VCC") && has_form(&primary_forms, "3V3") && best < 72 {
        best = 72;
    }
    if has_form(&child_forms, "VIN") && has_form(&primary_forms, "VIN") && best < 86 {
        assert(p.contains("VIN"@) && c.contains("VIN"@));
        best = 86;
    }
    best
}

/// Whether port `i` scores at least 70 and better than every other port.
pub open spec fn unique_best(scores: Seq<int>, i: int) -> bool {
    &&& 0 <= i < scores.len()
    &&& scores[i] >= 70
    &&& forall|j: int| 0 <= j < scores.len() && j != i ==> #[trigger] scores[j] < scores[i]
}

/// The scores of the controller ports against one module port.
pub open spec fn match_scores(primary_ports: Seq<PortDefinition>, child: PortDefinition) -> Seq<int> {
    Seq::new(primary_ports.len(), |i: int| spec_port_match_score(primary_ports[i], child))
}

/// The controller port a module port is wired to: the one that matches it
/// best, when that match scores at least 70 and no other port ties it.
pub fn best_primary_port_match<'a>(
    primary_ports: &'a [PortDefinition],
    child_port: &PortDefinition,
) -> (r: Option<&'a PortDefinition>)
    ensures
        match r {
            Some(p) => exists|i: int|
                unique_best(match_scores(primary_ports@, *child_port), i) && *p == primary_ports@[i],
            None => forall|i: int| !unique_best(match_scores(primary_ports@, *child_port), i),
        },
{
    let ghost scores = match_scores(primary_ports@, *child_port);
    let mut best: Option<(usize, i32)> = None;
    let mut second_best_score: i32 = i32::MIN;
    let mut i: usize = 0;
    while i < primary_ports.len()
        invariant
            i <= primary_ports@.len(),
            scores == match_scores(primary_ports@, *child_port),
            second_best_score <= 100,
            best is None ==> second_best_score == i32::MIN,
            best is None ==> forall|j: int| 0 <= j < i ==> #[trigger] scores[j] <= 0,
            best matches Some((bi, bs)) ==> {
                    &&& bi < i
                    &&& bs == scores[bi as int]
                    &&& bs > 0
                    &&& forall|j: int| 0 <= j < i ==> #[trigger] scores[j] <= bs
                    &&& second_best_score <= bs
                    &&& (second_best_score >= bs <==> exists|j: int|
                        0 <= j < i && j != bi && #[trigger] scores[j] == bs)
                },
        decreases primary_ports.len() - i,
    {
        let score = port_match_score(&primary_ports[i], child_port);
        assert(score == scores[i as int]);
        match best {
            None => {
                if score > 0 {
                    best = Some((i, score));
                } else {
                    assert forall|j: int| 0 <= j < i + 1 implies #[trigger] scores[j] <= 0 by {
                        if j < i {
                            assert(scores[j] <= 0);
                        } else {
                            assert(scores[j] == score);
                        }
                    }
                }
            },
            Some((bi, bs)) => {
                if score <= 0 {
                } else if score > bs {
                    second_best_score = bs;
                    best = Some((i, score));
                    assert(!exists|j: int| 0 <= j < i + 1 && j != i && #[trigger] scores[j] == score);
                } else if score > second_best_score {
                    second_best_score = score;
                    if score == bs {
                        second_best_score = bs;
                        assert(scores[i as int] == bs);
                    }
                }
            },
        }
        i = i + 1;
    }
    match best {
        None => {
            assert forall|k: int| !unique_best(scores, k) by {
                if 0 <= k < scores.len() {
                    assert(scores[k] <= 0);
                }
            }
            None
        },
        Some((bi, bs)) => {
            if bs < 70 || second_best_score >= bs {
                assert forall|k: int| !unique_best(scores, k) by {
                    if unique_best(scores, k) {
                        if second_best_score >= bs {
                            let j = choose|j: int|
                                0 <= j < scores.len() && j != bi && #[trigger] scores[j] == bs;
                            if k == bi {
                                assert(scores[j] < scores[k]);
                            } else {
                                assert(scores[bi as int] < scores[k]);
                            }
                        } else {
                            assert(scores[k] <= bs);
                        }
                    }
                }
                None
            } else {
                assert(unique_best(scores, bi as int));
                Some(&primary_ports[bi])
            }
        },
    }
}

// ---------------------------------------------------------------------------
// Fresh names
// ---------------------------------------------------------------------------

/// The ids in use in a bundle: its children's, then the primary's.
pub open spec fn member_ids(b: AssemblyBundle) -> Seq<Seq<char>> {
    b.children@.map_values(|m: AssemblyMember| m.id@).push(b.primary.id@)
}

pub open spec fn member_id_prefix(kind: AssemblyMemberKind) -> Seq<char> {
    match kind {
        AssemblyMemberKind::Board => "board_"@,
        AssemblyMemberKind::Module => "module_"@,
    }
}

/// `name` is `prefix` numbered by the least number from `start` on whose
/// name `used` lacks.
pub open spec fn first_free_name(name: Seq<char>, prefix: Seq<char>, start: nat, used: Seq<
    Seq<char>,
>) -> bool {
    exists|k: nat|
        #![trigger numbered(prefix, k)]
        start <= k && name == numbered(prefix, k) && !used.contains(name) && forall|j: nat|
            start <= j < k ==> used.contains(#[trigger] numbered(prefix, j))
}

/// The id a new child member gets: `board_<n>` or `module_<n>` with the
/// least `n` from 1 on that no member of the bundle uses.
pub fn next_member_id(bundle: &AssemblyBundle, kind: AssemblyMemberKind) -> (r: String)
    requires
        bundle.children@.len() + 2 <= u64::MAX,
    ensures
        first_free_name(r@, member_id_prefix(kind), 1, member_ids(*bundle)),
{
    let prefix = match kind {
        AssemblyMemberKind::Board => "board_",
        AssemblyMemberKind::Module => "module_",
    };
    let mut used: Vec<String> = Vec::new();
    let mut i: usize = 0;
    while i < bundle.children.len()
        invariant
            i <= bundle.children@.len(),
            views(used@) == bundle.children@.take(i as int).map_values(|m: AssemblyMember| m.id@),
        decreases bundle.children.len() - i,
    {
        let ghost before = views(used@);
        used.push(owned(bundle.children[i].id.as_str()));
        assert(views(used@) =~= before.push(bundle.children@[i as int].id@));
        assert(bundle.children@.take(i + 1) =~= bundle.children@.take(i as int).push(
            bundle.children@[i as int],
        ));
        assert(views(used@) =~= bundle.children@.take(i + 1).map_values(
            |m: AssemblyMember| m.id@,
        ));
        i = i + 1;
    }
    assert(bundle.children@.take(i as int) =~= bundle.children@);
    used.push(owned(bundle.primary.id.as_str()));
    assert(views(used@) =~= member_ids(*bundle));
    let k = first_free_number(prefix, 1, used.as_slice());
    let digits = string_of(&decimal(k));
    let r = concat2(prefix, digits.as_str());
    assert(r@ == numbered(member_id_prefix(kind), k as nat));
    r
}

/// The name an exported pin is given: `base_name` trimmed (`pin` when
/// nothing is left) when no export uses it yet, else that root followed by
/// `_<n>` with the least `n` from 2 on that no export uses.
pub open spec fn spec_unique_export_name(name: Seq<char>, exports: Seq<AssemblyExport>, base_name: Seq<
    char,
>) -> bool {
    let trimmed = spec_trim(base_name);
    let root = if trimmed.len() == 0 {
        "pin"@
    } else {
        trimmed
    };
    if !export_names(exports).contains(root) {
        name == root
    } else {
        first_free_name(name, root + "_"@, 2, export_names(exports))
    }
}

pub fn make_unique_export_name(exports: &[AssemblyExport], base_name: &str) -> (r: String)
    requires
        exports@.len() + 2 <= u64::MAX,
    ensures
        spec_unique_export_name(r@, exports@, base_name@),
{
    let trimmed = trim(&chars_of(base_name));
    let root = if trimmed.len() == 0 {
        owned("pin")
    } else {
        string_of(&trimmed)
    };
    let mut existing: Vec<String> = Vec::new();
    let mut i: usize = 0;
    while i < exports.len()
        invariant
            i <= exports@.len(),
            views(existing@) == export_names(exports@.take(i as int)),
        decreases exports.len() - i,
    {
        let ghost before = views(existing@);
        existing.push(owned(exports[i].name.as_str()));
        assert(views(existing@) =~= before.push(exports@[i as int].name@));
        assert(exports@.take(i + 1) =~= exports@.take(i as int).push(exports@[i as int]));
        assert(views(existing@) =~= export_names(exports@.take(i + 1)));
        i = i + 1;
    }
    assert(exports@.take(i as int) =~= exports@);
    if !contains_str(existing.as_slice(), root.as_str()) {
        return root;
    }
    let prefix = concat2(root.as_str(), "_");
    let k = first_free_number(prefix.as_str(), 2, existing.as_slice());
    let digits = string_of(&decimal(k));
    concat2(prefix.as_str(), digits.as_str())
}

// ---------------------------------------------------------------------------
// Ports of a loaded PCB
// ---------------------------------------------------------------------------

/// The references of the board's connectors.
pub open spec fn connector_refs(components: Seq<PcbComponent>) -> Seq<Seq<char>>
    decreases components.len(),
{
    if components.len() == 0 {
        Seq::empty()
    } else {
        let rest = connector_refs(components.drop_last());
        if components.last().kind@ == "connector"@ {
            rest.push(components.last().reference@)
        } else {
            rest
        }
    }
}

/// The pads of one component that sit on a net, as (net, `reference:pad`).
pub open spec fn component_pad_aliases(c: PcbComponent, k: int) -> Seq<(Seq<char>, Seq<char>)>
    decreases k,
{
    if k <= 0 || k > c.pads@.len() {
        Seq::empty()
    } else {
        let rest = component_pad_aliases(c, k - 1);
        match c.pads@[k - 1].net_name {
            Some(n) => rest.push((n@, c.reference@ + ":"@ + c.pads@[k - 1].number@)),
            None => rest,
        }
    }
}

/// The pads on a net of every component whose reference is a connector's,
/// as (net, `reference:pad`), in order.
pub open spec fn connector_pad_aliases(components: Seq<PcbComponent>, refs: Seq<Seq<char>>) -> Seq<
    (Seq<char>, Seq<char>),
>
    decreases components.len(),
{
    if components.len() == 0 {
        Seq::empty()
    } else {
        let rest = connector_pad_aliases(components.drop_last(), refs);
        let c = components.last();
        if refs.contains(c.reference@) {
            rest + component_pad_aliases(c, c.pads@.len() as int)
        } else {
            rest
        }
    }
}

/// The aliases listed for `net`, in order.
pub open spec fn aliases_of_net(pairs: Seq<(Seq<char>, Seq<char>)>, net: Seq<char>) -> Seq<Seq<char>>
    decreases pairs.len(),
{
    if pairs.len() == 0 {
        Seq::empty()
    } else {
        let rest = aliases_of_net(pairs.drop_last(), net);
        if pairs.last().0 == net {
            rest.push(pairs.last().1)
        } else {
            rest
        }
    }
}

pub open spec fn pair_nets(pairs: Seq<(Seq<char>, Seq<char>)>) -> Seq<Seq<char>> {
    pairs.map_values(|p: (Seq<char>, Seq<char>)| p.0)
}

/// `p` is the port of `net`: so named, classified by the name, with the
/// net's pads as aliases (a sorted set) and no note.
pub open spec fn port_of_net(p: PortDefinition, net: Seq<char>, pairs: Seq<(Seq<char>, Seq<char>)>) -> bool {
    &&& p.name@ == net
    &&& (p.class, p.direction) == spec_classify_port(net)
    &&& views(p.aliases@) == name_set(aliases_of_net(pairs, net))
    &&& p.note is None
}

pub open spec fn pair_views(v: Seq<(String, String)>) -> Seq<(Seq<char>, Seq<char>)> {
    v.map_values(|p: (String, String)| (p.0@, p.1@))
}

/// The ports derived from a loaded PCB: one per net on a connector pad, in
/// order of name, with its pads as aliases; from the net names when no
/// connector pad has a net.
pub open spec fn ports_from_pcb(r: Seq<PortDefinition>, loaded: LoadedPcb) -> bool {
    let pairs = connector_pad_aliases(loaded.components@, connector_refs(loaded.components@));
    let nets = name_set(pair_nets(pairs));
    &&& pairs.len() == 0 ==> ports_derived(r, views(loaded.net_names@))
    &&& pairs.len() > 0 ==> {
        &&& r.len() == nets.len()
        &&& forall|i: int| 0 <= i < r.len() ==> port_of_net(#[trigger] r[i], nets[i], pairs)
    }
}

/// The ports of a loaded PCB: one per net that a connector's pad sits on,
/// in order of name, classified by its name, with those pads as aliases
/// (`reference:pad`, a sorted set); a board without such pads gets the
/// ports derived from its net names.
pub fn derive_ports_from_loaded_pcb(loaded: &LoadedPcb) -> (r: Vec<PortDefinition>)
    ensures
        ports_from_pcb(r@, *loaded),
{
    let components = &loaded.components;
    let mut refs: Vec<String> = Vec::new();
    let mut i: usize = 0;
    while i < components.len()
        invariant
            i <= components@.len(),
            views(refs@) == connector_refs(components@.take(i as int)),
        decreases components.len() - i,
    {
        assert(components@.take(i + 1).drop_last() =~= components@.take(i as int));
        assert(components@.take(i + 1).last() == components@[i as int]);
        let ghost before = views(refs@);
        if str_eq(components[i].kind.as_str(), "connector") {
            refs.push(components[i].reference.clone());
            assert(views(refs@) =~= before.push(components@[i as int].reference@));
        }
        i = i + 1;
    }
    assert(components@.take(components@.len() as int) =~= components@);
    let ghost rv = views(refs@);
    let mut pairs: Vec<(String, String)> = Vec::new();
    let mut c: usize = 0;
    while c < components.len()
        invariant
            rv == views(refs@),
            c <= components@.len(),
            pair_views(pairs@) == connector_pad_aliases(components@.take(c as int), rv),
        decreases components.len() - c,
    {
        assert(components@.take(c + 1).drop_last() =~= components@.take(c as int));
        assert(components@.take(c + 1).last() == components@[c as int]);
        let component = &components[c];
        if contains_str(refs.as_slice(), component.reference.as_str()) {
            let ghost start = pair_views(pairs@);
            let mut p: usize = 0;
            while p < component.pads.len()
                invariant
                    p <= component.pads@.len(),
                    pair_views(pairs@) == start + component_pad_aliases(*component, p as int),
                decreases component.pads.len() - p,
            {
                let ghost before = pair_views(pairs@);
                match &component.pads[p].net_name {
                    Some(net) => {
                        let mut alias = component.reference.clone();
                        alias.append(":");
                        alias.append(component.pads[p].number.as_str());
                        pairs.push((net.clone(), alias));
                        assert(pair_views(pairs@) =~= before.push(
                            (net@, component.reference@ + ":"@ + component.pads@[p as int].number@),
                        ));
                    },
                    None => {},
                }
                p = p + 1;
            }
        }
        c = c + 1;
    }
    assert(components@.take(components@.len() as int) =~= components@);
    if pairs.len() == 0 {
        return derive_ports_from_net_names(loaded.net_names.as_slice());
    }
    let ghost pv = pair_views(pairs@);
    let mut nets: Vec<String> = Vec::new();
    let mut k: usize = 0;
    while k < pairs.len()
        invariant
            pv == pair_views(pairs@),
            k <= pv.len(),
            views(nets@) == name_set(pair_nets(pv.take(k as int))),
        decreases pairs.len() - k,
    {
        assert(pair_nets(pv.take(k + 1)).drop_last() =~= pair_nets(pv.take(k as int)));
        assert(pair_nets(pv.take(k + 1)).last() == pairs@[k as int].0@);
        insert_name(&mut nets, pairs[k].0.as_str());
        k = k + 1;
    }
    assert(pv.take(pv.len() as int) =~= pv);
    let ghost nv = views(nets@);
    let mut ports: Vec<PortDefinition> = Vec::new();
    let mut n: usize = 0;
    while n < nets.len()
        invariant
            pv == pair_views(pairs@),
            nv == views(nets@),
            n <= nv.len(),
            ports@.len() == n,
            forall|i: int| 0 <= i < n ==> port_of_net(#[trigger] ports@[i], nv[i], pv),
        decreases nets.len() - n,
    {
        let net = nets[n].as_str();
        let ghost ports_before = ports@;
        let mut aliases: Vec<String> = Vec::new();
        let mut q: usize = 0;
        while q < pairs.len()
            invariant
                pv == pair_views(pairs@),
                q <= pv.len(),
                ports@ == ports_before,
                views(aliases@) == name_set(aliases_of_net(pv.take(q as int), net@)),
            decreases pairs.len() - q,
        {
            assert(pv.take(q + 1).drop_last() =~= pv.take(q as int));
            assert(pv.take(q + 1).last() == pv[q as int]);
            if str_eq(pairs[q].0.as_str(), net) {
                let ghost prefix = aliases_of_net(pv.take(q as int), net@);
                insert_name(&mut aliases, pairs[q].1.as_str());
                assert(prefix.push(pv[q as int].1).drop_last() =~= prefix);
            }
            q = q + 1;
        }
        assert(pv.take(pv.len() as int) =~= pv);
        let (class, direction) = classify_port(net);
        let mut port = PortDefinition::new(net, class, direction);
        port.aliases = aliases;
        let ghost before = ports@;
        assert(nv[n as int] == net@);
        assert(port_of_net(port, nv[n as int], pv));
        ports.push(port);
        assert(ports@ == before.push(port));
        n = n + 1;
    }
    ports
}

} // verus!

use avrsim::gui::board_editor::{
    best_primary_port_match, classify_port, default_board_file_name,
    default_builtin_module_name, default_export_name_for_endpoint, derive_ports_from_net_names,
    display_member_label, endpoint_display, example_header_alias_signal, infer_firmware_kind,
    make_unique_export_name, member_endpoint, member_subtitle, next_member_id,
    normalize_board_bundle_path, port_match_forms, port_match_score, sanitize_name, split_csv,
    strip_board_file_suffix, PortCanvasKey, PRIMARY_MEMBER_ID,
};
use avrsim::project::assembly_bundle::{AssemblyBundle, AssemblyMember, AssemblyMemberKind};
use avrsim::project::definitions::{
    AssemblyExport, AttachmentEndpoint, DefinitionSource, PortClass, PortDefinition, PortDirection,
};
use avrsim::project::shared::FirmwareSourceKind;

fn strings(values: &[&str]) -> Vec<String> {
    values.iter().map(|value| value.to_string()).collect()
}

fn has(forms: &[String], name: &str) -> bool {
    forms.iter().any(|form| form == name)
}

fn primary_member() -> AssemblyMember {
    AssemblyMember::new(
        PRIMARY_MEMBER_ID,
        AssemblyMemberKind::Board,
        "controller",
        DefinitionSource::builtin_board_model("arduino_mega_2560_rev3"),
    )
}

#[test]
fn next_member_id_skips_existing_children() {
    let mut bundle = AssemblyBundle::new("Untitled Board Assembly", primary_member());
    for _ in 0..2 {
        let id = next_member_id(&bundle, AssemblyMemberKind::Board);
        bundle.children.push(AssemblyMember::new(
            &id,
            AssemblyMemberKind::Board,
            &id,
            DefinitionSource::builtin_board_model("gy_sht31_d"),
        ));
    }
    assert_eq!(next_member_id(&bundle, AssemblyMemberKind::Board), "board_3");
    assert_eq!(next_member_id(&bundle, AssemblyMemberKind::Module), "module_1");
}

#[test]
fn next_member_id_fills_gaps() {
    let mut bundle = AssemblyBundle::new("Stack", primary_member());
    bundle.children.push(AssemblyMember::new(
        "module_2",
        AssemblyMemberKind::Module,
        "x",
        DefinitionSource::virtual_only(),
    ));
    assert_eq!(next_member_id(&bundle, AssemblyMemberKind::Module), "module_1");
}

#[test]
fn port_classification_handles_power_bus_and_analog_names() {
    assert_eq!(classify_port("GND").0, PortClass::Power);
    assert_eq!(classify_port("CAN_H").0, PortClass::Bus);
    assert_eq!(classify_port("/ACT_U_RAW").0, PortClass::Analog);
}

#[test]
fn port_classification_covers_supplies_and_plain_pins() {
    assert_eq!(classify_port("+24V"), (PortClass::Power, PortDirection::Passive));
    assert_eq!(classify_port("/D27"), (PortClass::Digital, PortDirection::Bidirectional));
    assert_eq!(classify_port("UART_TX"), (PortClass::Bus, PortDirection::Bidirectional));
}

#[test]
fn derived_ports_skip_blank_and_repeated_nets() {
    let ports = derive_ports_from_net_names(&strings(&["GND", " ", "SDA", "GND", "VCC"]));
    let names: Vec<&str> = ports.iter().map(|port| port.name.as_str()).collect();
    assert_eq!(names, vec!["GND", "SDA", "VCC"]);
    assert_eq!(ports[1].class, PortClass::Bus);
    assert!(ports.iter().all(|port| port.aliases.is_empty()));
}

#[test]
fn port_match_forms_expand_common_spi_and_numeric_aliases() {
    let mut port = PortDefinition::new("D10_SS", PortClass::Digital, PortDirection::Bidirectional);
    port.aliases.push("/10".to_string());
    let forms = port_match_forms(&port);
    assert!(has(&forms, "D10"));
    assert!(has(&forms, "SS"));
    assert!(has(&forms, "CS"));
    assert!(has(&forms, "10"));
}

#[test]
fn port_match_forms_expand_sidecar_header_aliases_to_mega_pins() {
    let mut digital = PortDefinition::new("DIGITAL_BUS", PortClass::Digital, PortDirection::Bidirectional);
    digital.aliases.push("P_DIG:33".to_string());
    let digital_forms = port_match_forms(&digital);
    assert!(has(&digital_forms, "P_DIG_33"));
    assert!(has(&digital_forms, "D22"));
    assert!(!has(&digital_forms, "D33"));

    let mut analog = PortDefinition::new("ANALOG_BUS", PortClass::Analog, PortDirection::Bidirectional);
    analog.aliases.push("P_AUX:1".to_string());
    let analog_forms = port_match_forms(&analog);
    assert!(has(&analog_forms, "P_AUX_1"));
    assert!(has(&analog_forms, "A8"));
    assert!(has(&analog_forms, "ADC8"));
    assert!(!has(&analog_forms, "D1"));
}

#[test]
fn port_match_forms_are_listed_once_each() {
    let mut port = PortDefinition::new("+5V", PortClass::Power, PortDirection::Passive);
    port.aliases.push("5V".to_string());
    port.aliases.push("+5V".to_string());
    let forms = port_match_forms(&port);
    let mut sorted = forms.clone();
    sorted.sort();
    sorted.dedup();
    assert_eq!(sorted.len(), forms.len());
    assert!(has(&forms, "5V"));
    assert!(has(&forms, "+5V"));
}

#[test]
fn header_pads_map_to_controller_signals() {
    assert_eq!(example_header_alias_signal("P_DIG_1"), Some("GND".to_string()));
    assert_eq!(example_header_alias_signal("P_DIG_3"), Some("D52".to_string()));
    assert_eq!(example_header_alias_signal("P_DIG_4"), Some("D53".to_string()));
    assert_eq!(example_header_alias_signal("P_DIG_34"), Some("D23".to_string()));
    assert_eq!(example_header_alias_signal("P_DIG_36"), Some("+5V".to_string()));
    assert_eq!(example_header_alias_signal("P_DIG_37"), None);
    assert_eq!(example_header_alias_signal("P_AUX_8"), Some("A15".to_string()));
    assert_eq!(example_header_alias_signal("P_AUX_9"), None);
    assert_eq!(example_header_alias_signal("J1_3"), None);
    assert_eq!(example_header_alias_signal("SDA"), None);
}

#[test]
fn best_primary_port_match_prefers_unique_controller_function_match() {
    let primary_ports = vec![
        PortDefinition::new("D13_SCK", PortClass::Bus, PortDirection::Bidirectional),
        PortDefinition::new("D11_MOSI", PortClass::Bus, PortDirection::Bidirectional),
        PortDefinition::new("D12_MISO", PortClass::Bus, PortDirection::Bidirectional),
    ];
    let child = PortDefinition::new("SDI", PortClass::Bus, PortDirection::Bidirectional);
    let matched = best_primary_port_match(&primary_ports, &child).expect("match");
    assert_eq!(matched.name, "D11_MOSI");
}

#[test]
fn best_primary_port_match_refuses_ties_and_weak_matches() {
    let primary_ports = vec![
        PortDefinition::new("GND", PortClass::Power, PortDirection::Passive),
        PortDefinition::new("GND_2", PortClass::Power, PortDirection::Passive),
    ];
    let child = PortDefinition::new("GND", PortClass::Power, PortDirection::Passive);
    assert!(best_primary_port_match(&primary_ports, &child).is_none());

    let supplies = vec![PortDefinition::new("+3V3", PortClass::Power, PortDirection::Passive)];
    let vcc = PortDefinition::new("VCC", PortClass::Power, PortDirection::Passive);
    assert_eq!(port_match_score(&supplies[0], &vcc), 72);
    assert_eq!(best_primary_port_match(&supplies, &vcc).map(|p| p.name.clone()), Some("+3V3".to_string()));

    let five = PortDefinition::new("+5V", PortClass::Power, PortDirection::Passive);
    assert_eq!(port_match_score(&five, &vcc), 86);
    let unrelated = PortDefinition::new("LED", PortClass::Digital, PortDirection::Output);
    assert_eq!(port_match_score(&unrelated, &vcc), 0);
}

#[test]
fn board_file_name_defaults_to_canonical_suffix() {
    assert_eq!(default_board_file_name("Main Controller Stack"), "Main-Controller-Stack.board.avrsim.json");
}

#[test]
fn board_bundle_save_path_normalizes_legacy_and_partial_suffixes() {
    assert_eq!(
        normalize_board_bundle_path("/tmp/air_node.board.avrsim", "ignored"),
        "/tmp/air_node.board.avrsim.json"
    );
    assert_eq!(normalize_board_bundle_path("/tmp/air_node", "Air Node"), "/tmp/air_node.board.avrsim.json");
}

#[test]
fn board_file_names_fall_back_to_the_board_name() {
    assert_eq!(normalize_board_bundle_path("/tmp/.json", "Air Node"), "/tmp/Air-Node.board.avrsim.json");
    assert_eq!(sanitize_name("---"), "board-assembly");
    assert_eq!(sanitize_name("a b"), "a-b");
    assert_eq!(strip_board_file_suffix("x.avrsim.json"), "x");
    assert_eq!(strip_board_file_suffix("x.txt"), "x.txt");
}

#[test]
fn export_name_defaults_follow_endpoint_identity() {
    assert_eq!(default_export_name_for_endpoint(&AttachmentEndpoint::primary("A4/SDA")), "A4_SDA");
    assert_eq!(
        default_export_name_for_endpoint(&AttachmentEndpoint::child("module_1", "CAN-H")),
        "module_1_CAN-H"
    );
}

#[test]
fn export_names_are_made_unique() {
    let exports = vec![
        AssemblyExport {
            name: "A4_SDA".to_string(),
            source: AttachmentEndpoint::primary("A4_SDA"),
            aliases: Vec::new(),
            note: None,
        },
        AssemblyExport {
            name: "A4_SDA_2".to_string(),
            source: AttachmentEndpoint::primary("A4"),
            aliases: Vec::new(),
            note: None,
        },
    ];
    assert_eq!(make_unique_export_name(&exports, " A4_SDA "), "A4_SDA_3");
    assert_eq!(make_unique_export_name(&exports, "SCL"), "SCL");
    assert_eq!(make_unique_export_name(&[], "  "), "pin");
}

#[test]
fn members_are_shown_by_label_and_source() {
    let mut member = primary_member();
    assert_eq!(display_member_label(&member), "controller");
    member.label = Some("  ".to_string());
    assert_eq!(display_member_label(&member), "controller");
    member.label = Some("Main".to_string());
    assert_eq!(display_member_label(&member), "Main");
    member.ports = vec![PortDefinition::new("GND", PortClass::Power, PortDirection::Passive)];
    assert_eq!(member_subtitle(&member), "arduino_mega_2560_rev3 • 1 ports");
    member.source = DefinitionSource::kicad_pcb("/tmp/a.kicad_pcb");
    assert_eq!(member_subtitle(&member), "pcb • 1 ports");
}

#[test]
fn endpoints_name_their_member() {
    let member = primary_member();
    let endpoint = member_endpoint(&member, "SDA");
    assert!(endpoint.instance_id.is_none());
    assert_eq!(endpoint_display(&endpoint), "Primary:SDA");

    let child = AssemblyMember::new("module_1", AssemblyMemberKind::Module, "m", DefinitionSource::virtual_only());
    let endpoint = member_endpoint(&child, "SCL");
    assert_eq!(endpoint.instance_id.as_deref(), Some("module_1"));
    assert_eq!(endpoint_display(&endpoint), "module_1:SCL");
    let key = PortCanvasKey::from_endpoint(&endpoint);
    assert_eq!(key.instance_id.as_deref(), Some("module_1"));
    assert_eq!(key.port, "SCL");
}

#[test]
fn firmware_kind_and_lists_are_read_from_text() {
    assert_eq!(infer_firmware_kind("/tmp/blink.INO"), FirmwareSourceKind::Ino);
    assert_eq!(infer_firmware_kind("/tmp/blink.hex"), FirmwareSourceKind::Hex);
    assert_eq!(infer_firmware_kind("/tmp/blink"), FirmwareSourceKind::Hex);
    assert_eq!(split_csv(" a, b ,,c "), vec!["a", "b", "c"]);
    assert!(split_csv("").is_empty());
    assert_eq!(
        default_builtin_module_name(&strings(&["arduino_nano_v3", "bme280_breakout", "gy_sht31_d"])),
        "bme280_breakout"
    );
    assert_eq!(default_builtin_module_name(&strings(&["arduino_nano_v3"])), "gy_sht31_d");
}

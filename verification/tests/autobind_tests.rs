use avrsim::project::autobind::{
    auto_bind_host_board, candidate_pcb_nets, controller_signal_suggestions,
    default_project_name, display_stem_for_path, infer_binding_mode,
    inferred_host_board_from_source, should_auto_apply_suggestion, suggest_pcb_nets,
    sync_host_board_bindings,
};
use avrsim::project::shared::{BindingMode, HostBoard, SignalBinding};

fn strings(values: &[&str]) -> Vec<String> {
    values.iter().map(|value| value.to_string()).collect()
}

#[test]
fn infers_host_board_from_common_source_names() {
    assert_eq!(inferred_host_board_from_source("/tmp/nano_pin_sweep.ino"), Some(HostBoard::NanoV3));
    assert_eq!(
        inferred_host_board_from_source("/tmp/mega_pin_sweep.ino"),
        Some(HostBoard::Mega2560Rev3)
    );
    assert_eq!(
        inferred_host_board_from_source("/tmp/atmega328p_blink.hex"),
        Some(HostBoard::NanoV3)
    );
    assert_eq!(
        inferred_host_board_from_source("/tmp/atmega2560_blink.hex"),
        Some(HostBoard::Mega2560Rev3)
    );
}

#[test]
fn default_project_name_prefers_source_then_pcb() {
    assert_eq!(default_project_name("/tmp/dewpoint.ino", "/tmp/board.kicad_pcb"), "dewpoint");
    assert_eq!(
        default_project_name("", "/tmp/main-controller.board.avrsim.json"),
        "main-controller"
    );
}

#[test]
fn infer_binding_mode_covers_common_signal_types() {
    assert_eq!(infer_binding_mode("D27"), BindingMode::Digital);
    assert_eq!(infer_binding_mode("D44_PWM"), BindingMode::Analog);
    assert_eq!(infer_binding_mode("D50_MISO"), BindingMode::Bus);
    assert_eq!(infer_binding_mode("+5V"), BindingMode::Power);
}

#[test]
fn project_name_falls_back_to_a_fixed_name() {
    assert_eq!(default_project_name("", ""), "Untitled Simulation");
    assert_eq!(display_stem_for_path("/tmp/controller.board.avrsim"), Some("controller".to_string()));
}

#[test]
fn pcb_alias_candidates_cover_common_header_nets() {
    assert_eq!(
        candidate_pcb_nets(HostBoard::Mega2560Rev3, "D27"),
        vec!["D27", "/27", "/*27", "PA5", "/PA5"]
    );
    assert_eq!(
        candidate_pcb_nets(HostBoard::Mega2560Rev3, "A10"),
        vec!["A10", "/A10", "PK2", "/PK2", "ADC10", "/ADC10"]
    );
    assert_eq!(
        candidate_pcb_nets(HostBoard::NanoV3, "D13_SCK"),
        vec!["D13_SCK", "/13", "/*13", "PB5", "/PB5", "D13/SCK", "/D13/SCK", "/D13{slash}SCK"]
    );
}

#[test]
fn controller_suggestions_can_match_generic_gpio_nets() {
    let available = strings(&["GPIO27", "GPIO28"]);
    let suggestions = controller_signal_suggestions(HostBoard::Mega2560Rev3, "D27", &available);
    assert_eq!(
        suggestions.first().map(|suggestion| suggestion.net_name.as_str()),
        Some("GPIO27")
    );
    assert!(should_auto_apply_suggestion(&suggestions));
}

#[test]
fn controller_suggestions_can_match_generic_adc_nets() {
    let available = strings(&["ADC10", "ADC11"]);
    let suggestions = controller_signal_suggestions(HostBoard::Mega2560Rev3, "A10", &available);
    assert_eq!(
        suggestions.first().map(|suggestion| suggestion.net_name.as_str()),
        Some("ADC10")
    );
    assert!(should_auto_apply_suggestion(&suggestions));
}

#[test]
fn controller_suggestions_can_match_official_mega_port_net_names() {
    let available = strings(&["/PA5", "/PK2"]);
    let digital = controller_signal_suggestions(HostBoard::Mega2560Rev3, "D27", &available);
    assert_eq!(digital.first().map(|suggestion| suggestion.net_name.as_str()), Some("/PA5"));
    let analog = controller_signal_suggestions(HostBoard::Mega2560Rev3, "A10", &available);
    assert_eq!(analog.first().map(|suggestion| suggestion.net_name.as_str()), Some("/PK2"));
}

#[test]
fn binding_modes_are_inferred_sensibly() {
    assert_eq!(infer_binding_mode("D27"), BindingMode::Digital);
    assert_eq!(infer_binding_mode("D44_PWM"), BindingMode::Analog);
    assert_eq!(infer_binding_mode("D50_MISO"), BindingMode::Bus);
    assert_eq!(infer_binding_mode("+5V"), BindingMode::Power);
}

#[test]
fn suggestions_rank_exact_names_first_and_keep_each_net_once() {
    let candidates = strings(&["D27", "/PA5"]);
    let available = strings(&["/PA5", "D27", "UNRELATED"]);
    let suggestions = suggest_pcb_nets("D27", &candidates, &available);
    assert!(!suggestions.is_empty());
    assert_eq!(suggestions[0].net_name, "/PA5");
    assert_eq!(suggestions[1].net_name, "D27");
    assert_eq!(suggestions[0].confidence_label(), "exact");
    assert_eq!(suggestions[0].score, 2750);
    assert_eq!(suggestions[1].score, 2710);
    let mut names: Vec<&str> = suggestions.iter().map(|s| s.net_name.as_str()).collect();
    names.sort();
    names.dedup();
    assert_eq!(names.len(), suggestions.len());
    assert_eq!(suggestions[2].net_name, "UNRELATED");
    assert_eq!(suggestions[2].score, 60);
}

#[test]
fn no_suggestion_is_applied_automatically_from_nothing() {
    assert!(!should_auto_apply_suggestion(&[]));
}

#[test]
fn auto_bind_binds_signals_with_exact_nets() {
    let host_signals = strings(&["D27", "+5V", "D99"]);
    let available = strings(&["/PA5", "+5V"]);
    let bindings = auto_bind_host_board(HostBoard::Mega2560Rev3, &host_signals, &available);
    assert!(bindings.iter().any(|binding| binding.board_signal == "+5V" && binding.pcb_net == "+5V"));
    assert!(bindings.iter().any(|binding| binding.board_signal == "D27" && binding.pcb_net == "/PA5"));
    assert!(!bindings.iter().any(|binding| binding.board_signal == "D99"));
}

#[test]
fn sync_keeps_valid_bindings_and_adds_missing_ones() {
    let host_signals = strings(&["D27", "+5V"]);
    let available = strings(&["/PA5", "+5V", "MY_NET"]);
    let existing = vec![SignalBinding {
        board_signal: "+5V".to_string(),
        pcb_net: "MY_NET".to_string(),
        mode: BindingMode::Power,
        note: None,
    }];
    let synced = sync_host_board_bindings(HostBoard::Mega2560Rev3, &host_signals, &available, &existing);
    assert!(synced.iter().any(|binding| binding.board_signal == "+5V" && binding.pcb_net == "MY_NET"));
    assert!(synced.iter().any(|binding| binding.board_signal == "D27" && binding.pcb_net == "/PA5"));
}

/// Net names of the Mega sidecar controller board, as its PCB lists them.
fn mega_sidecar_nets() -> Vec<String> {
    let mut nets = strings(&[
        "+5V", "GND", "/RESET", "/PA0", "/PA1", "/PA2", "/PA3", "/PA4", "/PA5", "/PA6", "/PA7",
        "/PC0", "/PC1", "/PK0", "/PK1", "CAN_H", "CAN_L", "/SCK", "/MISO", "/MOSI",
    ]);
    nets.sort();
    nets.dedup();
    nets
}

#[test]
fn controller_signal_suggestions_find_exact_mega_port_aliases() {
    let available_nets = mega_sidecar_nets();
    let suggestions =
        controller_signal_suggestions(HostBoard::Mega2560Rev3, "D27", &available_nets);
    assert_eq!(
        suggestions.first().map(|suggestion| suggestion.net_name.as_str()),
        Some("/PA5")
    );
}

#[test]
fn auto_bind_host_board_produces_useful_bindings_for_example_board() {
    let available_nets = mega_sidecar_nets();
    let host_signals = strings(&[
        "+5V", "GND", "RESET", "D22", "D23", "D24", "D25", "D26", "D27", "D28", "D29", "A0", "A1",
    ]);
    let bindings = auto_bind_host_board(HostBoard::Mega2560Rev3, &host_signals, &available_nets);
    assert!(bindings
        .iter()
        .any(|binding| binding.board_signal == "+5V" && binding.pcb_net == "+5V"));
    assert!(bindings
        .iter()
        .any(|binding| binding.board_signal == "D27" && binding.pcb_net == "/PA5"));
}

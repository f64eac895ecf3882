use avrsim::gui::simulation::SimulationSnapshot;
use avrsim::gui::wiring::{
    auto_bind_common_aliases, auto_wire_module_overlay, build_project, choose_controller_net, controller_connections,
    host_board_preview_bindings, module_highlight_nets, module_signal_names,
    prune_bindings_for_selected_board, reconcile_controller_bindings, suggested_module_bindings,
    ControllerConnection, HostSignalActivity, ProjectForm,
};
use avrsim::mcu::common::{BoardPin, BoardPinLevel};
use avrsim::project::shared::{
    BindingMode, FirmwareSourceKind, HostBoard, ModuleOverlay, ModuleSignalBinding, SignalBinding,
};

fn strings(values: &[&str]) -> Vec<String> {
    values.iter().map(|value| value.to_string()).collect()
}

fn binding(signal: &str, net: &str, mode: BindingMode, note: Option<&str>) -> SignalBinding {
    SignalBinding {
        board_signal: signal.to_string(),
        pcb_net: net.to_string(),
        mode,
        note: note.map(|text| text.to_string()),
    }
}

fn net_of<'a>(bindings: &'a [SignalBinding], signal: &str) -> Option<&'a str> {
    bindings
        .iter()
        .find(|binding| binding.board_signal == signal)
        .map(|binding| binding.pcb_net.as_str())
}

fn form(source: &str, pcb: &str) -> ProjectForm {
    ProjectForm {
        source_path: source.to_string(),
        pcb_path: pcb.to_string(),
        project_name: String::new(),
        project_description: String::new(),
        selected_board: HostBoard::Mega2560Rev3,
        compiled_hex_path: Some("/tmp/build/demo.ino.hex".to_string()),
        module_overlays: Vec::new(),
        bindings: Vec::new(),
        probes: Vec::new(),
        stimuli: Vec::new(),
    }
}

#[test]
fn controller_connections_are_derived_from_controller_bindings() {
    let bindings = vec![binding("D10_SS", "/10", BindingMode::Bus, None)];

    assert_eq!(
        controller_connections(&bindings),
        vec![ControllerConnection {
            controller_pin: "D10_SS".to_string(),
            pcb_net: "/10".to_string(),
            mode: BindingMode::Bus,
        }]
    );
}

#[test]
fn controller_connections_sort_by_pin_then_net() {
    let bindings = vec![
        binding("D2", "/B", BindingMode::Digital, None),
        binding("A0", "/X", BindingMode::Analog, None),
        binding("D2", "/A", BindingMode::Digital, None),
    ];
    let connections = controller_connections(&bindings);
    let pairs: Vec<(&str, &str)> = connections
        .iter()
        .map(|c| (c.controller_pin.as_str(), c.pcb_net.as_str()))
        .collect();
    assert_eq!(pairs, vec![("A0", "/X"), ("D2", "/A"), ("D2", "/B")]);
}

#[test]
fn reconcile_controller_bindings_rebinds_stale_project_nets() {
    let available = strings(&["+5V", "A8", "A9", "D22", "D23", "GND"]);
    let mut bindings = vec![
        binding("A8", "/A8", BindingMode::Analog, Some("legacy")),
        binding("D22", "/22", BindingMode::Digital, Some("legacy")),
    ];

    let (rebound, dropped) =
        reconcile_controller_bindings(&mut bindings, HostBoard::Mega2560Rev3, &available);
    assert_eq!((rebound, dropped), (2, 2));
    assert_eq!(net_of(&bindings, "D22"), Some("D22"));
    assert_eq!(net_of(&bindings, "A8"), Some("A8"));
    assert!(bindings[0].note.as_deref().unwrap().starts_with("Rebound by arduino_simulator"));
}

#[test]
fn reconcile_keeps_fresh_bindings_and_ignores_an_empty_pcb() {
    let mut bindings = vec![
        binding("D22", "D22", BindingMode::Digital, Some("kept")),
        binding("D23", "/gone", BindingMode::Digital, None),
    ];
    let unchanged = bindings.clone();
    assert_eq!(
        reconcile_controller_bindings(&mut bindings, HostBoard::Mega2560Rev3, &[]),
        (0, 0)
    );
    assert_eq!(bindings.len(), unchanged.len());

    let available = strings(&["D22", "UNRELATED"]);
    let (rebound, dropped) =
        reconcile_controller_bindings(&mut bindings, HostBoard::Mega2560Rev3, &available);
    assert_eq!((rebound, dropped), (0, 1));
    assert_eq!(bindings.len(), 1);
    assert_eq!(bindings[0].note.as_deref(), Some("kept"));
}

#[test]
fn auto_bind_common_aliases_binds_unbound_signals_only() {
    let signals = strings(&["D13", "D22", "D23"]);
    let available = strings(&["D13", "D22", "D23"]);
    let mut bindings = vec![binding("D22", "/manual", BindingMode::Digital, None)];

    let bound = auto_bind_common_aliases(
        &mut bindings,
        HostBoard::Mega2560Rev3,
        &signals,
        &available,
        false,
    );
    assert_eq!(bound, 2);
    let signals_now: Vec<&str> = bindings.iter().map(|b| b.board_signal.as_str()).collect();
    assert_eq!(signals_now, vec!["D13", "D22", "D23"]);
    assert_eq!(net_of(&bindings, "D22"), Some("/manual"));
    assert_eq!(net_of(&bindings, "D13"), Some("D13"));
    assert_eq!(
        bindings[0].note.as_deref(),
        Some("Auto-bound by arduino_simulator (exact, exact alias)")
    );

    let rebound = auto_bind_common_aliases(
        &mut bindings,
        HostBoard::Mega2560Rev3,
        &signals,
        &available,
        true,
    );
    assert_eq!(rebound, 3);
    assert_eq!(net_of(&bindings, "D22"), Some("D22"));

    assert_eq!(
        auto_bind_common_aliases(&mut bindings, HostBoard::Mega2560Rev3, &signals, &[], true),
        0
    );
    assert_eq!(bindings.len(), 3);
}

#[test]
fn switching_boards_prunes_and_reports() {
    let mut bindings = vec![
        binding("D13", "/13", BindingMode::Digital, None),
        binding("D50_MISO", "/50", BindingMode::Bus, None),
    ];
    let nano_signals = strings(&["D13", "D12"]);
    let notice =
        prune_bindings_for_selected_board(&mut bindings, HostBoard::NanoV3, &nano_signals, None);
    assert_eq!(
        notice,
        "Switched host board to Arduino Nano (ATmega328P); wiring will be available after you load a PCB."
    );
    assert_eq!(bindings.len(), 1);
    assert_eq!(bindings[0].board_signal, "D13");

    let nets = strings(&["D12", "D13"]);
    let notice = prune_bindings_for_selected_board(
        &mut bindings,
        HostBoard::NanoV3,
        &nano_signals,
        Some(&nets),
    );
    assert_eq!(
        notice,
        "Switched host board to Arduino Nano (ATmega328P) and auto-wired 2 signal(s) to the loaded PCB."
    );
    assert_eq!(net_of(&bindings, "D13"), Some("D13"));
}

#[test]
fn module_signal_names_are_sorted() {
    let names = module_signal_names(&strings(&["VCC", "CANH", "GND", "CANL"]));
    assert_eq!(names, strings(&["CANH", "CANL", "GND", "VCC"]));
}

#[test]
fn module_autowire_wires_can_module_to_pcb_nets() {
    let signals = module_signal_names(&strings(&[
        "CANH", "CANL", "CS", "GND", "INT", "MISO", "MOSI", "SCK", "VCC",
    ]));
    let nets = strings(&[
        "+5V", "/CANH", "/CANL", "/MCP2515_CS", "/INT", "D50_MISO", "D51_MOSI", "D52_SCK", "GND",
    ]);
    let mut module = ModuleOverlay {
        name: "can_1".to_string(),
        model: "mcp2515_tja1050_can_module".to_string(),
        bindings: Vec::new(),
    };
    let wired = auto_wire_module_overlay(&mut module, &signals, Some(&nets));
    assert!(wired >= 5);
    assert_eq!(wired, module.bindings.len());
    assert!(module.bindings.iter().any(|binding| binding.module_signal == "CANH"));
    assert!(module.bindings.iter().any(|binding| binding.module_signal == "CANL"));

    assert_eq!(auto_wire_module_overlay(&mut module, &signals, None), 0);
    assert!(module.bindings.is_empty());
}

#[test]
fn module_autowire_keeps_manual_nets_it_cannot_improve() {
    let signals = strings(&["PWM"]);
    let nets = strings(&["UNRELATED"]);
    let mut module = ModuleOverlay {
        name: "drive_1".to_string(),
        model: "some_module".to_string(),
        bindings: vec![ModuleSignalBinding {
            module_signal: "PWM".to_string(),
            pcb_net: "/MANUAL".to_string(),
            mode: BindingMode::Digital,
            note: Some("by hand".to_string()),
        }],
    };
    assert_eq!(auto_wire_module_overlay(&mut module, &signals, Some(&nets)), 1);
    assert_eq!(module.bindings[0].pcb_net, "/MANUAL");
    assert_eq!(module.bindings[0].note.as_deref(), Some("by hand"));
}

#[test]
fn module_suggestions_skip_wired_signals_and_rank_best_first() {
    let signals = strings(&["CANH", "CANL", "SCK"]);
    let nets = strings(&["/CANH", "CAN_L", "D52_SCK"]);
    let module = ModuleOverlay {
        name: "can_1".to_string(),
        model: "mcp2515_tja1050_can_module".to_string(),
        bindings: vec![ModuleSignalBinding {
            module_signal: "CANH".to_string(),
            pcb_net: "/CANH".to_string(),
            mode: BindingMode::Bus,
            note: None,
        }],
    };
    let suggestions = suggested_module_bindings(&module, &signals, Some(&nets));
    assert!(suggestions.iter().all(|s| s.module_signal != "CANH"));
    assert!(suggestions.iter().any(|s| s.module_signal == "CANL" && s.suggestion.net_name == "CAN_L"));
    for pair in suggestions.windows(2) {
        assert!(pair[0].suggestion.score >= pair[1].suggestion.score);
    }
    assert!(suggested_module_bindings(&module, &signals, None).is_empty());
}

#[test]
fn module_highlight_nets_form_a_sorted_set() {
    let overlays = vec![
        ModuleOverlay {
            name: "a".to_string(),
            model: "m".to_string(),
            bindings: vec![
                ModuleSignalBinding {
                    module_signal: "X".to_string(),
                    pcb_net: "/B".to_string(),
                    mode: BindingMode::Digital,
                    note: None,
                },
                ModuleSignalBinding {
                    module_signal: "Y".to_string(),
                    pcb_net: "/A".to_string(),
                    mode: BindingMode::Digital,
                    note: None,
                },
            ],
        },
        ModuleOverlay {
            name: "b".to_string(),
            model: "m".to_string(),
            bindings: vec![ModuleSignalBinding {
                module_signal: "Z".to_string(),
                pcb_net: "/B".to_string(),
                mode: BindingMode::Digital,
                note: None,
            }],
        },
    ];
    assert_eq!(module_highlight_nets(&overlays), strings(&["/A", "/B"]));
}

#[test]
fn host_board_preview_maps_bindings_onto_preview_nets() {
    let bindings = vec![
        binding("D31", "D31", BindingMode::Digital, None),
        binding("NOT_A_PIN", "X", BindingMode::Digital, None),
    ];
    let signals = strings(&["D31"]);
    let preview_nets = strings(&["GND", "PC6"]);
    let shown = host_board_preview_bindings(
        HostBoard::Mega2560Rev3,
        &bindings,
        &signals,
        &preview_nets,
    );
    assert!(shown
        .iter()
        .any(|binding| binding.board_signal == "D31" && binding.pcb_net == "PC6"));
    assert!(shown.iter().all(|binding| binding.board_signal == "D31"));

    let mut activity = HostSignalActivity::new();
    activity.levels = vec![("D31".to_string(), 1)];
    let active = activity.active_host_preview_nets(HostBoard::Mega2560Rev3, &signals, &preview_nets, 0);
    assert!(active.contains(&"PC6".to_string()));
    assert_eq!(activity.active_highlight_nets(&bindings, 0), strings(&["D31"]));
}

#[test]
fn controller_signal_status_text_reports_signal_level() {
    let mut activity = HostSignalActivity::new();
    activity.levels = vec![("D10_SS".to_string(), 1)];
    assert_eq!(activity.status_text("D10_SS", 0), "high");
    activity.levels = vec![("D10_SS".to_string(), 0)];
    assert_eq!(activity.status_text("D10_SS", 0), "low");
    assert_eq!(activity.status_text("+5V", 0), "power rail");
    assert_eq!(activity.status_text("GND", 0), "ground");
    assert_eq!(activity.status_text("D2", 0), "unresolved");
}

#[test]
fn level_changes_flash_for_a_while() {
    let mut activity = HostSignalActivity::new();
    let mut snapshot = SimulationSnapshot::default();
    snapshot.board = HostBoard::NanoV3;
    snapshot.host_pin_levels = vec![BoardPinLevel { pin: BoardPin::Digital(13), level: 1 }];
    activity.update(&snapshot, 1_000);
    assert_eq!(activity.status_text("D13", 1_000), "activity pulse");
    assert!(activity.activity("D13", 1_239).is_flashing);
    assert_eq!(activity.status_text("D13", 1_240), "high");

    snapshot.host_pin_levels = vec![BoardPinLevel { pin: BoardPin::Digital(13), level: 1 }];
    activity.update(&snapshot, 2_000);
    assert!(!activity.activity("D13", 2_000).is_flashing);
    assert!(activity.flash_until.is_empty());

    snapshot.host_pin_levels = vec![BoardPinLevel { pin: BoardPin::Digital(13), level: 0 }];
    activity.update(&snapshot, 3_000);
    assert!(activity.activity("D13", 3_000).is_flashing);
    assert_eq!(activity.status_text("D13", 3_500), "low");
}

#[test]
fn project_form_reports_validation_errors() {
    let error = build_project(form("/work/demo.hex", "/work/main.kicad_pcb"), false, None, &[]).unwrap_err();
    assert_eq!(error, "unknown built-in board model arduino_mega_2560_rev3");
}

#[test]
fn project_form_needs_a_source_and_a_pcb() {
    let error = build_project(form("notes.txt", "board.kicad_pcb"), false, None, &[]).unwrap_err();
    assert_eq!(error, "Select a valid .ino sketch or .hex image first.");
    let error = build_project(form("demo.ino", "   "), false, None, &[]).unwrap_err();
    assert_eq!(error, "Select a valid .kicad_pcb file first.");
}

#[test]
fn project_form_builds_a_named_project() {
    let mut source = form(" /work/demo.ino ", "/work/boards/main.kicad_pcb");
    source.project_description = "  bench setup ".to_string();
    let signals = strings(&["D13", "GND"]);
    let project = build_project(source, false, Some(&signals), &[]).unwrap();
    assert_eq!(project.name, "demo");
    assert_eq!(project.description.as_deref(), Some("bench setup"));
    assert_eq!(project.firmware.kind, FirmwareSourceKind::Ino);
    assert_eq!(project.firmware.path, "/work/demo.ino");
    assert_eq!(project.firmware.compiled_hex_path.as_deref(), Some("/tmp/build/demo.ino.hex"));
    assert_eq!(project.pcb.board_name_hint.as_deref(), Some("main"));

    let hex =
        build_project(form("/work/demo.hex", "/work/main.kicad_pcb"), false, Some(&signals), &[]).unwrap();
    assert_eq!(hex.firmware.kind, FirmwareSourceKind::Hex);
    assert_eq!(hex.firmware.compiled_hex_path, None);
}

fn assert_same(actual: &SignalBinding, expected: &SignalBinding) {
    assert_eq!(actual.board_signal, expected.board_signal);
    assert_eq!(actual.pcb_net, expected.pcb_net);
    assert_eq!(actual.mode, expected.mode);
    assert_eq!(actual.note, expected.note);
}

#[test]
fn choosing_a_net_keeps_mode_and_note_only_for_the_same_net() {
    let mut bindings = vec![
        binding("D10", "CAN_CS", BindingMode::Bus, Some("manual")),
        binding("D27", "/PA5", BindingMode::Analog, Some("checked")),
    ];

    // The same net again: mode and note stay.
    choose_controller_net(&mut bindings, "D27", "/PA5");
    assert_same(&bindings[1], &binding("D27", "/PA5", BindingMode::Analog, Some("checked")));

    // Another net: the mode stays, the note goes.
    choose_controller_net(&mut bindings, "D27", "/PA6");
    assert_same(&bindings[1], &binding("D27", "/PA6", BindingMode::Analog, None));

    // A signal not yet bound takes the mode its name implies, in signal order.
    choose_controller_net(&mut bindings, "+5V", "+5V");
    assert_same(&bindings[0], &binding("+5V", "+5V", BindingMode::Power, None));
    assert_eq!(bindings.len(), 3);

    // A blank choice unbinds the signal; unbinding an unbound one changes nothing.
    choose_controller_net(&mut bindings, "D10", "  ");
    assert_eq!(net_of(&bindings, "D10"), None);
    assert_eq!(bindings.len(), 2);
    choose_controller_net(&mut bindings, "D99", "");
    assert_eq!(bindings.len(), 2);
}

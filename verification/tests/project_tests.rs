use avrsim::project::assembly_bundle::{AssemblyBundle, AssemblyMember, AssemblyMemberKind};
use avrsim::project::behavior_definition::{
    BehaviorDefinition, BehaviorEngine, BehaviorPortBinding, BehaviorValue,
};
use avrsim::project::definitions::{
    AssemblyDefinition, AssemblyExport, AttachedInstance, AttachmentBinding, AttachmentEndpoint,
    BoardDefinition, DefinitionReference, DefinitionReferenceKind, DefinitionSource,
    ModuleDefinition, PortClass, PortDefinition, PortDirection,
};
use avrsim::project::document::AvrSimDocument;
use avrsim::project::error::ProjectError;
use avrsim::project::shared::{
    validate_host_board_signal_bindings, validate_module_overlays, BindingMode, FirmwareSource,
    FirmwareSourceKind, HostBoard, ModuleOverlay, ModuleSignalBinding, PcbSource, ProbeKind,
    ProbeSpec, SignalBinding, StimulusKind, StimulusSpec,
};
use avrsim::project::simulation_project::SimulationProject;

fn host_signals() -> Vec<String> {
    ["D13", "D27", "D44_PWM", "A4_SDA", "+5V", "GND"]
        .iter()
        .map(|s| s.to_string())
        .collect()
}

fn known_host_signal() -> String {
    host_signals()[0].clone()
}

fn module_models() -> Vec<String> {
    ["arduino_nano_v3", "gy_sht31_d", "mcp2515_tja1050_can_module"]
        .iter()
        .map(|s| s.to_string())
        .collect()
}

fn known_module_model() -> String {
    module_models()
        .into_iter()
        .find(|name| !name.starts_with("arduino_"))
        .expect("module model")
}

// ---------------------------------------------------------------------------
// Shared types
// ---------------------------------------------------------------------------

#[test]
fn host_board_metadata_is_consistent() {
    assert_eq!(HostBoard::ALL, [HostBoard::Mega2560Rev3, HostBoard::NanoV3]);
    assert_eq!(HostBoard::NanoV3.label(), "Arduino Nano (ATmega328P)");
    assert_eq!(HostBoard::NanoV3.fqbn(), "arduino:avr:nano:cpu=atmega328old");
    assert_eq!(HostBoard::NanoV3.short_name(), "nano");
    assert_eq!(HostBoard::NanoV3.builtin_board_model(), "arduino_nano_v3");

    assert_eq!(HostBoard::Mega2560Rev3.label(), "Arduino Mega 2560");
    assert_eq!(HostBoard::Mega2560Rev3.fqbn(), "arduino:avr:mega");
    assert_eq!(HostBoard::Mega2560Rev3.short_name(), "mega");
    assert_eq!(HostBoard::Mega2560Rev3.builtin_board_model(), "arduino_mega_2560_rev3");
    assert_eq!(HostBoard::default(), HostBoard::Mega2560Rev3);
}

#[test]
fn firmware_and_pcb_sources_require_non_empty_paths() {
    let firmware = FirmwareSource {
        kind: FirmwareSourceKind::Hex,
        path: "".into(),
        compiled_hex_path: None,
    };
    assert!(matches!(firmware.validate(), Err(ProjectError::MissingFirmwarePath)));

    let pcb = PcbSource { path: "".into(), board_name_hint: None };
    assert!(matches!(pcb.validate(), Err(ProjectError::MissingPcbPath)));

    let firmware = FirmwareSource {
        kind: FirmwareSourceKind::Ino,
        path: "firmware/controller.ino".into(),
        compiled_hex_path: Some("build/controller.hex".into()),
    };
    let pcb = PcbSource {
        path: "pcb/controller.kicad_pcb".into(),
        board_name_hint: Some("controller".to_string()),
    };

    assert!(firmware.validate().is_ok());
    assert!(pcb.validate().is_ok());
}

#[test]
fn host_board_binding_validation_accepts_known_unique_signals() {
    let signal = known_host_signal();
    let bindings = vec![SignalBinding {
        board_signal: signal,
        pcb_net: "NET_SIG".to_string(),
        mode: BindingMode::Digital,
        note: Some("status LED".to_string()),
    }];
    let known = host_signals();
    assert!(validate_host_board_signal_bindings(HostBoard::NanoV3, Some(&known), &bindings).is_ok());
}

#[test]
fn host_board_binding_validation_rejects_unknown_duplicate_and_empty_nets() {
    let signal = known_host_signal();
    let known = host_signals();

    let unknown = vec![SignalBinding {
        board_signal: "NOT_A_REAL_SIGNAL".to_string(),
        pcb_net: "NET1".to_string(),
        mode: BindingMode::Auto,
        note: None,
    }];
    assert!(matches!(
        validate_host_board_signal_bindings(HostBoard::Mega2560Rev3, Some(&known), &unknown),
        Err(ProjectError::UnknownBoardSignal(_))
    ));

    let duplicate = vec![
        SignalBinding {
            board_signal: signal.clone(),
            pcb_net: "NET1".to_string(),
            mode: BindingMode::Digital,
            note: None,
        },
        SignalBinding {
            board_signal: signal.clone(),
            pcb_net: "NET2".to_string(),
            mode: BindingMode::Analog,
            note: None,
        },
    ];
    assert!(matches!(
        validate_host_board_signal_bindings(HostBoard::Mega2560Rev3, Some(&known), &duplicate),
        Err(ProjectError::DuplicateBoardSignal(found)) if found == signal
    ));

    let empty_net = vec![SignalBinding {
        board_signal: signal.clone(),
        pcb_net: "   ".to_string(),
        mode: BindingMode::Power,
        note: None,
    }];
    assert!(matches!(
        validate_host_board_signal_bindings(HostBoard::Mega2560Rev3, Some(&known), &empty_net),
        Err(ProjectError::EmptyPcbNet(found)) if found == signal
    ));
}

#[test]
fn host_board_binding_validation_needs_the_board_model() {
    let bindings: Vec<SignalBinding> = Vec::new();
    assert!(matches!(
        validate_host_board_signal_bindings(HostBoard::NanoV3, None, &bindings),
        Err(ProjectError::UnknownBoardModel(model)) if model == "arduino_nano_v3"
    ));
}

#[test]
fn module_overlay_validation_accepts_known_models_and_bindings() {
    let overlays = vec![ModuleOverlay {
        name: "sensor".to_string(),
        model: known_module_model(),
        bindings: vec![
            ModuleSignalBinding {
                module_signal: "SDA".to_string(),
                pcb_net: "I2C_SDA".to_string(),
                mode: BindingMode::Bus,
                note: None,
            },
            ModuleSignalBinding {
                module_signal: "SCL".to_string(),
                pcb_net: "I2C_SCL".to_string(),
                mode: BindingMode::Bus,
                note: None,
            },
        ],
    }];

    assert!(validate_module_overlays(&module_models(), &overlays).is_ok());
}

#[test]
fn module_overlay_validation_rejects_bad_names_models_and_bindings() {
    let model = known_module_model();
    let models = module_models();

    let empty_name = vec![ModuleOverlay {
        name: "   ".to_string(),
        model: model.clone(),
        bindings: Vec::new(),
    }];
    assert!(matches!(
        validate_module_overlays(&models, &empty_name),
        Err(ProjectError::EmptyName("module overlay"))
    ));

    let duplicate_name = vec![
        ModuleOverlay { name: "sensor".to_string(), model: model.clone(), bindings: Vec::new() },
        ModuleOverlay { name: "sensor".to_string(), model: model.clone(), bindings: Vec::new() },
    ];
    assert!(matches!(
        validate_module_overlays(&models, &duplicate_name),
        Err(ProjectError::DuplicateModuleOverlay(found)) if found == "sensor"
    ));

    let unknown_model = vec![ModuleOverlay {
        name: "sensor".to_string(),
        model: "unknown_model".to_string(),
        bindings: Vec::new(),
    }];
    assert!(matches!(
        validate_module_overlays(&models, &unknown_model),
        Err(ProjectError::UnknownModuleModel(found)) if found == "unknown_model"
    ));

    let empty_signal = vec![ModuleOverlay {
        name: "sensor".to_string(),
        model: model.clone(),
        bindings: vec![ModuleSignalBinding {
            module_signal: "   ".to_string(),
            pcb_net: "I2C_SDA".to_string(),
            mode: BindingMode::Bus,
            note: None,
        }],
    }];
    assert!(matches!(
        validate_module_overlays(&models, &empty_signal),
        Err(ProjectError::EmptyModuleSignal(found)) if found == "sensor"
    ));

    let empty_net = vec![ModuleOverlay {
        name: "sensor".to_string(),
        model: model.clone(),
        bindings: vec![ModuleSignalBinding {
            module_signal: "SDA".to_string(),
            pcb_net: " ".to_string(),
            mode: BindingMode::Bus,
            note: None,
        }],
    }];
    assert!(matches!(
        validate_module_overlays(&models, &empty_net),
        Err(ProjectError::EmptyPcbNet(found)) if found == "SDA"
    ));

    let duplicate_signal = vec![ModuleOverlay {
        name: "sensor".to_string(),
        model,
        bindings: vec![
            ModuleSignalBinding {
                module_signal: "SDA".to_string(),
                pcb_net: "I2C_SDA".to_string(),
                mode: BindingMode::Bus,
                note: None,
            },
            ModuleSignalBinding {
                module_signal: "SDA".to_string(),
                pcb_net: "I2C_SDA_2".to_string(),
                mode: BindingMode::Bus,
                note: None,
            },
        ],
    }];
    assert!(matches!(
        validate_module_overlays(&models, &duplicate_signal),
        Err(ProjectError::DuplicateModuleSignal { module_name, signal })
            if module_name == "sensor" && signal == "SDA"
    ));
}

// ---------------------------------------------------------------------------
// Definitions
// ---------------------------------------------------------------------------

fn sample_board_definition() -> BoardDefinition {
    let mut board = BoardDefinition::new(
        "mega_sidecar",
        DefinitionSource::kicad_pcb("/tmp/mega_r3_sidecar_controller_rev_a.kicad_pcb"),
    );
    board.ports = vec![
        PortDefinition::new("D27", PortClass::Digital, PortDirection::Bidirectional),
        PortDefinition::new("D44_PWM", PortClass::Analog, PortDirection::Output),
        PortDefinition::new("A10", PortClass::Analog, PortDirection::Input),
    ];
    board
}

fn sample_module_definition() -> ModuleDefinition {
    let mut module = ModuleDefinition::new("air_node_nano", DefinitionSource::virtual_only());
    module.embedded_host_board = Some(HostBoard::NanoV3);
    module.ports = vec![
        PortDefinition::new("CAN_H", PortClass::Bus, PortDirection::Bidirectional),
        PortDefinition::new("CAN_L", PortClass::Bus, PortDirection::Bidirectional),
        PortDefinition::new("+24V", PortClass::Power, PortDirection::Input),
        PortDefinition::new("GND", PortClass::Power, PortDirection::Passive),
    ];
    module.default_firmware = Some(FirmwareSource {
        kind: FirmwareSourceKind::Hex,
        path: "/tmp/air_node.hex".to_string(),
        compiled_hex_path: None,
    });
    module
}

fn sample_assembly_definition() -> AssemblyDefinition {
    let mut assembly = AssemblyDefinition::new(
        "air_node_assembly",
        DefinitionReference::file(
            DefinitionReferenceKind::BoardDefinition,
            "/tmp/air_node_board.avrsim.json",
        ),
    );
    assembly.primary_ports = vec![
        PortDefinition::new("J1_1", PortClass::Bus, PortDirection::Bidirectional),
        PortDefinition::new("J1_2", PortClass::Bus, PortDirection::Bidirectional),
        PortDefinition::new("J1_7", PortClass::Power, PortDirection::Input),
        PortDefinition::new("J1_8", PortClass::Power, PortDirection::Passive),
    ];
    assembly.children.push(AttachedInstance {
        id: "nano".to_string(),
        label: Some("Arduino Nano".to_string()),
        reference: DefinitionReference::host_board(HostBoard::NanoV3),
        ports: vec![
            PortDefinition::new("D10_SS", PortClass::Bus, PortDirection::Output),
            PortDefinition::new("D11_MOSI", PortClass::Bus, PortDirection::Output),
            PortDefinition::new("D12_MISO", PortClass::Bus, PortDirection::Input),
            PortDefinition::new("D13_SCK", PortClass::Bus, PortDirection::Output),
        ],
        firmware_override: Some(FirmwareSource {
            kind: FirmwareSourceKind::Ino,
            path: "/tmp/nano_sht31_can_node.ino".to_string(),
            compiled_hex_path: None,
        }),
        note: None,
    });
    assembly.children.push(AttachedInstance {
        id: "mcp2515".to_string(),
        label: Some("CAN breakout".to_string()),
        reference: DefinitionReference::file(
            DefinitionReferenceKind::ModuleDefinition,
            "/tmp/mcp2515_module.avrsim.json",
        ),
        ports: vec![
            PortDefinition::new("CS", PortClass::Bus, PortDirection::Input),
            PortDefinition::new("MOSI", PortClass::Bus, PortDirection::Input),
            PortDefinition::new("MISO", PortClass::Bus, PortDirection::Output),
            PortDefinition::new("SCK", PortClass::Bus, PortDirection::Input),
        ],
        firmware_override: None,
        note: None,
    });
    assembly.attachments = vec![
        AttachmentBinding {
            from: AttachmentEndpoint::child("nano", "D10_SS"),
            to: AttachmentEndpoint::child("mcp2515", "CS"),
            mode: BindingMode::Bus,
            note: None,
        },
        AttachmentBinding {
            from: AttachmentEndpoint::primary("J1_1"),
            to: AttachmentEndpoint::child("mcp2515", "MISO"),
            mode: BindingMode::Bus,
            note: Some("Illustrative export path".to_string()),
        },
    ];
    assembly.exports = vec![AssemblyExport {
        name: "CAN_H".to_string(),
        source: AttachmentEndpoint::primary("J1_1"),
        aliases: vec!["RJ45.1".to_string()],
        note: None,
    }];
    assembly
}

#[test]
fn board_definition_round_trips_and_validates() {
    let board = sample_board_definition();
    board.validate().expect("valid");
    let document = AvrSimDocument::BoardDefinition(board.clone());
    assert_eq!(document.kind_name(), "board_definition");
    let back = document.into_board_definition().expect("board");
    assert_eq!(format!("{:?}", back), format!("{:?}", board));
}

#[test]
fn module_definition_round_trips_and_validates() {
    let module = sample_module_definition();
    module.validate().expect("valid");
    let document = AvrSimDocument::ModuleDefinition(module);
    assert_eq!(document.kind_name(), "module_definition");
}

#[test]
fn assembly_definition_round_trips_and_validates() {
    let assembly = sample_assembly_definition();
    assembly.validate().expect("valid");
    let document = AvrSimDocument::AssemblyDefinition(assembly);
    assert_eq!(document.kind_name(), "assembly_definition");
}

#[test]
fn assembly_definition_rejects_duplicate_child_ids() {
    let mut assembly = sample_assembly_definition();
    assembly.children.push(assembly.children[0].clone());
    let error = assembly.validate().expect_err("duplicate child ids");
    assert!(matches!(error, ProjectError::DuplicateInstanceId(_)));
}

#[test]
fn assembly_definition_rejects_unknown_ports() {
    let mut assembly = sample_assembly_definition();
    assembly.attachments[0].to.port = "NOPE".to_string();
    let error = assembly.validate().expect_err("unknown port");
    assert!(matches!(error, ProjectError::UnknownChildPort { .. }));
}

#[test]
fn board_definition_rejects_duplicate_ports() {
    let mut board = sample_board_definition();
    board.ports.push(board.ports[0].clone());
    let error = board.validate().expect_err("duplicate ports");
    assert!(matches!(error, ProjectError::DuplicatePortName(_)));
}

#[test]
fn assembly_definition_rejects_unknown_primary_ports_and_duplicate_exports() {
    let mut assembly = sample_assembly_definition();
    assembly.attachments[1].from.port = "J9_9".to_string();
    assert!(matches!(
        assembly.validate(),
        Err(ProjectError::UnknownPrimaryPort(port)) if port == "J9_9"
    ));

    let mut assembly = sample_assembly_definition();
    assembly.exports.push(assembly.exports[0].clone());
    assert!(matches!(
        assembly.validate(),
        Err(ProjectError::DuplicateExportName(name)) if name == "CAN_H"
    ));
}

#[test]
fn definition_sources_need_their_path_or_model() {
    let mut source = DefinitionSource::kicad_pcb("/tmp/board.kicad_pcb");
    assert!(source.validate("carrier").is_ok());
    source.path = None;
    assert!(matches!(
        source.validate("carrier"),
        Err(ProjectError::MissingDefinitionSource(owner)) if owner == "carrier"
    ));
    let builtin = DefinitionSource::builtin_board_model("   ");
    assert!(builtin.validate("carrier").is_err());
    assert!(DefinitionSource::virtual_only().validate("carrier").is_ok());
}

// ---------------------------------------------------------------------------
// Bundles
// ---------------------------------------------------------------------------

fn sample_bundle() -> AssemblyBundle {
    let mut primary = AssemblyMember::new(
        "primary",
        AssemblyMemberKind::Board,
        "main_controller_sidecar",
        DefinitionSource::kicad_pcb("/tmp/mega_r3_sidecar_controller_rev_a.kicad_pcb"),
    );
    primary.embedded_host_board = Some(HostBoard::Mega2560Rev3);
    primary.firmware = Some(FirmwareSource {
        kind: FirmwareSourceKind::Ino,
        path: "/tmp/dewpoint_controller.ino".to_string(),
        compiled_hex_path: None,
    });
    primary.ports = vec![
        PortDefinition::new("CANH", PortClass::Bus, PortDirection::Bidirectional),
        PortDefinition::new("CANL", PortClass::Bus, PortDirection::Bidirectional),
        PortDefinition::new("+24V", PortClass::Power, PortDirection::Input),
        PortDefinition::new("GND", PortClass::Power, PortDirection::Passive),
    ];

    let mut bundle = AssemblyBundle::new("DewPoint Stack", primary);

    let mut air_node = AssemblyMember::new(
        "air_node_1",
        AssemblyMemberKind::Board,
        "air_node",
        DefinitionSource::kicad_pcb("/tmp/air_node.kicad_pcb"),
    );
    air_node.embedded_host_board = Some(HostBoard::NanoV3);
    air_node.firmware = Some(FirmwareSource {
        kind: FirmwareSourceKind::Hex,
        path: "/tmp/air_node.hex".to_string(),
        compiled_hex_path: None,
    });
    air_node.ports = vec![
        PortDefinition::new("CANH", PortClass::Bus, PortDirection::Bidirectional),
        PortDefinition::new("CANL", PortClass::Bus, PortDirection::Bidirectional),
        PortDefinition::new("+24V", PortClass::Power, PortDirection::Input),
        PortDefinition::new("GND", PortClass::Power, PortDirection::Passive),
    ];
    bundle.children.push(air_node);
    bundle.attachments = vec![
        AttachmentBinding {
            from: AttachmentEndpoint::primary("CANH"),
            to: AttachmentEndpoint::child("air_node_1", "CANH"),
            mode: BindingMode::Bus,
            note: None,
        },
        AttachmentBinding {
            from: AttachmentEndpoint::primary("CANL"),
            to: AttachmentEndpoint::child("air_node_1", "CANL"),
            mode: BindingMode::Bus,
            note: None,
        },
    ];
    bundle.exports = vec![AssemblyExport {
        name: "bus_canh".to_string(),
        source: AttachmentEndpoint::primary("CANH"),
        aliases: vec!["CAN_H".to_string()],
        note: None,
    }];
    bundle
}

#[test]
fn bundle_validation_accepts_the_sample_stack() {
    assert!(sample_bundle().validate().is_ok());
}

#[test]
fn bundle_validation_rejects_duplicate_child_ids() {
    let mut bundle = sample_bundle();
    let child = bundle.children[0].clone();
    bundle.children.push(child);
    let error = bundle.validate().expect_err("duplicate");
    assert!(matches!(error, ProjectError::DuplicateInstanceId(_)));
}

#[test]
fn bundle_validation_rejects_unknown_attachment_ports() {
    let mut bundle = sample_bundle();
    bundle.attachments[0].to.port = "NOPE".to_string();
    let error = bundle.validate().expect_err("bad port");
    assert!(matches!(error, ProjectError::UnknownChildPort { .. }));
}

#[test]
fn bundle_round_trips_through_json_document() {
    let bundle = sample_bundle();
    let document = AvrSimDocument::AssemblyBundle(bundle.clone());
    assert_eq!(document.kind_name(), "assembly_bundle");
    let decoded = document.into_assembly_bundle().expect("decode");
    assert_eq!(format!("{:?}", decoded), format!("{:?}", bundle));
}

// ---------------------------------------------------------------------------
// Behaviors
// ---------------------------------------------------------------------------

fn sample_behavior() -> BehaviorDefinition {
    let mut definition =
        BehaviorDefinition::new("gy_sht31_d_behavior", BehaviorEngine::Sht31I2cSensor);
    definition.ports = vec![
        BehaviorPortBinding::new("SDA", "sda"),
        BehaviorPortBinding::new("SCL", "scl"),
        BehaviorPortBinding::new("VCC", "vcc"),
        BehaviorPortBinding::new("GND", "gnd"),
    ];
    definition.parameters.push(("address".to_string(), BehaviorValue::Integer(0x44)));
    definition
        .parameters
        .push(("measurement_delay_ms".to_string(), BehaviorValue::Integer(15)));
    definition
}

#[test]
fn behavior_definition_round_trips_and_validates() {
    let definition = sample_behavior();
    definition.validate().expect("valid");
    let document = AvrSimDocument::BehaviorDefinition(definition);
    assert_eq!(document.kind_name(), "behavior_definition");
}

#[test]
fn behavior_definition_rejects_duplicate_ports_and_roles() {
    let mut definition = sample_behavior();
    definition.ports.push(BehaviorPortBinding::new("SDA", "spare"));
    assert!(matches!(
        definition.validate().expect_err("duplicate port"),
        ProjectError::DuplicateBehaviorPort(_)
    ));

    let mut definition = sample_behavior();
    definition.ports.push(BehaviorPortBinding::new("ADDR", "sda"));
    assert!(matches!(
        definition.validate().expect_err("duplicate role"),
        ProjectError::DuplicateBehaviorRole(_)
    ));
}

#[test]
fn behavior_definition_rejects_empty_roles() {
    let mut definition = sample_behavior();
    definition.ports.push(BehaviorPortBinding::new("ADDR", "  "));
    assert!(matches!(definition.validate(), Err(ProjectError::EmptyBehaviorRole)));
    assert_eq!(BehaviorEngine::Sht31I2cSensor.label(), "SHT31 I2C Sensor");
}

// ---------------------------------------------------------------------------
// Simulation projects
// ---------------------------------------------------------------------------

fn sample_project() -> SimulationProject {
    let mut project = SimulationProject::new(
        "Main Controller",
        HostBoard::Mega2560Rev3,
        FirmwareSource {
            kind: FirmwareSourceKind::Ino,
            path: "/tmp/dewpoint_controller.ino".to_string(),
            compiled_hex_path: Some("/tmp/dewpoint_controller.ino.hex".to_string()),
        },
        PcbSource {
            path: "/tmp/mega_r3_sidecar_controller_rev_a.kicad_pcb".to_string(),
            board_name_hint: Some("mega_r3_sidecar_controller_rev_a".to_string()),
        },
    );
    project.root_assembly = Some(DefinitionReference::file(
        DefinitionReferenceKind::AssemblyBundle,
        "/tmp/main_controller_stack.avrsim.json",
    ));
    project.bindings.push(SignalBinding {
        board_signal: "D27".to_string(),
        pcb_net: "/MCP2515_CS".to_string(),
        mode: BindingMode::Digital,
        note: None,
    });
    project.bindings.push(SignalBinding {
        board_signal: "D44_PWM".to_string(),
        pcb_net: "PWM_44_RAW".to_string(),
        mode: BindingMode::Analog,
        note: Some("External 0-10V stage input".to_string()),
    });
    project.probes.push(ProbeSpec {
        name: "Actuator feedback".to_string(),
        pcb_net: "/ACT_U_RAW".to_string(),
        kind: ProbeKind::Analog,
    });
    project.stimuli.push(StimulusSpec {
        name: "Cooling call".to_string(),
        pcb_net: "COOLING_CALL_IN".to_string(),
        kind: StimulusKind::DigitalHigh,
        value: None,
    });
    project
}

#[test]
fn project_round_trips_through_json_document() {
    let project = sample_project();
    let document = AvrSimDocument::SimulationProject(project.clone());
    assert_eq!(document.kind_name(), "simulation_project");
    let decoded = document.into_simulation_project().expect("decode");
    assert_eq!(format!("{:?}", decoded), format!("{:?}", project));
}

#[test]
fn validation_accepts_known_host_signals() {
    let project = sample_project();
    let known = host_signals();
    project.validate(Some(&known), &module_models()).expect("valid");
}

#[test]
fn validation_rejects_unknown_host_signals() {
    let mut project = sample_project();
    project.bindings[0].board_signal = "NOT_A_PIN".to_string();
    let known = host_signals();
    let error = project.validate(Some(&known), &module_models()).expect_err("invalid");
    assert!(matches!(error, ProjectError::UnknownBoardSignal(_)));
}

#[test]
fn validation_rejects_duplicate_host_signals() {
    let mut project = sample_project();
    project.bindings.push(project.bindings[0].clone());
    let known = host_signals();
    let error = project.validate(Some(&known), &module_models()).expect_err("duplicate");
    assert!(matches!(error, ProjectError::DuplicateBoardSignal(_)));
}

#[test]
fn host_board_metadata_is_stable() {
    assert_eq!(HostBoard::NanoV3.fqbn(), "arduino:avr:nano:cpu=atmega328old");
    assert_eq!(HostBoard::Mega2560Rev3.short_name(), "mega");
    assert_eq!(HostBoard::Mega2560Rev3.builtin_board_model(), "arduino_mega_2560_rev3");
}

#[test]
fn validation_rejects_missing_required_paths() {
    let known = host_signals();
    let models = module_models();

    let mut project = sample_project();
    project.name.clear();
    assert!(matches!(
        project.validate(Some(&known), &models).expect_err("missing name"),
        ProjectError::EmptyName("project")
    ));

    let mut project = sample_project();
    project.firmware.path = String::new();
    assert!(matches!(
        project.validate(Some(&known), &models).expect_err("missing firmware"),
        ProjectError::MissingFirmwarePath
    ));

    let mut project = sample_project();
    project.pcb.path = String::new();
    assert!(matches!(
        project.validate(Some(&known), &models).expect_err("missing pcb"),
        ProjectError::MissingPcbPath
    ));
}

// ---------------------------------------------------------------------------
// Documents
// ---------------------------------------------------------------------------

#[test]
fn document_kind_names_are_stable() {
    let document = AvrSimDocument::BoardDefinition(BoardDefinition::new(
        "carrier",
        DefinitionSource::virtual_only(),
    ));
    assert_eq!(document.kind_name(), "board_definition");
}

#[test]
fn validate_delegates_to_inner_document() {
    let document = AvrSimDocument::BoardDefinition(BoardDefinition::new(
        "   ",
        DefinitionSource::virtual_only(),
    ));
    let known = host_signals();
    assert!(matches!(
        document.validate(Some(&known), &module_models()),
        Err(ProjectError::EmptyName("board definition"))
    ));
}

#[test]
fn document_of_another_kind_is_refused() {
    let document = AvrSimDocument::BoardDefinition(BoardDefinition::new(
        "carrier",
        DefinitionSource::virtual_only(),
    ));
    assert!(matches!(
        document.into_assembly_bundle(),
        Err(ProjectError::UnexpectedDocumentKind(kind)) if kind == "board_definition"
    ));
}

// ---------------------------------------------------------------------------
// Error messages
// ---------------------------------------------------------------------------

#[test]
fn display_messages_cover_every_project_error_variant() {
    let cases = vec![
        (ProjectError::Io("disk offline".to_string()), "disk offline".to_string()),
        (
            ProjectError::Json("EOF while parsing an object at line 1 column 1".to_string()),
            "EOF while parsing an object at line 1 column 1".to_string(),
        ),
        (
            ProjectError::EmptyName("board definition"),
            "board definition name must not be empty".to_string(),
        ),
        (ProjectError::MissingFirmwarePath, "firmware source path must not be empty".to_string()),
        (ProjectError::MissingPcbPath, "PCB source path must not be empty".to_string()),
        (
            ProjectError::UnknownBoardModel("mystery".to_string()),
            "unknown built-in board model mystery".to_string(),
        ),
        (
            ProjectError::UnknownModuleModel("sensor".to_string()),
            "unknown module overlay model sensor".to_string(),
        ),
        (
            ProjectError::UnknownBoardSignal("A7".to_string()),
            "unknown host-board signal A7".to_string(),
        ),
        (
            ProjectError::DuplicateBoardSignal("D13".to_string()),
            "duplicate binding for host-board signal D13".to_string(),
        ),
        (
            ProjectError::DuplicateModuleOverlay("display".to_string()),
            "duplicate module overlay named display".to_string(),
        ),
        (
            ProjectError::EmptyModuleSignal("sensor".to_string()),
            "module overlay sensor contains an empty signal binding".to_string(),
        ),
        (
            ProjectError::DuplicateModuleSignal {
                module_name: "sensor".to_string(),
                signal: "SCL".to_string(),
            },
            "module overlay sensor binds signal SCL more than once".to_string(),
        ),
        (
            ProjectError::EmptyPcbNet("D2".to_string()),
            "binding for D2 does not specify a PCB net".to_string(),
        ),
        (
            ProjectError::MissingDefinitionSource("carrier".to_string()),
            "definition source for carrier is incomplete".to_string(),
        ),
        (
            ProjectError::InvalidDefinitionSource("bad source".to_string()),
            "bad source".to_string(),
        ),
        (
            ProjectError::InvalidDefinitionReference("bad reference".to_string()),
            "bad reference".to_string(),
        ),
        (
            ProjectError::DuplicateBehaviorPort("uart_tx".to_string()),
            "duplicate behavior port binding for uart_tx".to_string(),
        ),
        (
            ProjectError::DuplicateBehaviorRole("sensor".to_string()),
            "duplicate behavior role binding for sensor".to_string(),
        ),
        (ProjectError::EmptyBehaviorRole, "behavior role must not be empty".to_string()),
        (
            ProjectError::InvalidBehaviorParameter("baud".to_string()),
            "invalid behavior parameter baud".to_string(),
        ),
        (
            ProjectError::DuplicatePortName("VIN".to_string()),
            "duplicate port name VIN".to_string(),
        ),
        (ProjectError::EmptyPortName, "port name must not be empty".to_string()),
        (
            ProjectError::DuplicateInstanceId("rtc".to_string()),
            "duplicate attached instance id rtc".to_string(),
        ),
        (
            ProjectError::UnknownInstanceId("rtc".to_string()),
            "unknown attached instance id rtc".to_string(),
        ),
        (
            ProjectError::UnknownPrimaryPort("CANH".to_string()),
            "unknown primary port CANH".to_string(),
        ),
        (
            ProjectError::UnknownChildPort {
                instance_id: "sensor".to_string(),
                port: "SDA".to_string(),
            },
            "unknown port SDA on attached instance sensor".to_string(),
        ),
        (
            ProjectError::DuplicateExportName("telemetry".to_string()),
            "duplicate assembly export telemetry".to_string(),
        ),
        (
            ProjectError::UnexpectedDocumentKind("module_definition".to_string()),
            "document kind module_definition does not match the requested type".to_string(),
        ),
    ];

    for (error, expected) in cases {
        assert_eq!(error.message(), expected);
    }
}

use avrsim::gui::app::{
    can_hot_swap_target_without_pcb, classify_source, common_baud_rates, displayed_host_board,
    format_sreg, host_signal_levels_for_snapshot, host_signal_names, module_signal_aliases,
    module_signal_suggestions, next_module_overlay_name, preview_net_aliases,
    sanitize_project_name, standard_controller_signal_label, target_runtime_board_mismatch,
    SourceAction,
};
use avrsim::gui::arduino::{
    build_directory_name, choose_hex_output, compile_command_text, resolve_compile_plan,
    sanitize_name, ArduinoCliError, CompileArtifact,
};
use avrsim::gui::pcb_view::{preview_graphics_layer, preview_track_layer};
use avrsim::gui::simulation::{
    duration_for_cycles, format_compile_log, serial_text, SharedSimulationState,
    SimulationSnapshot, SimulatorStatus, SERIAL_TAIL_BYTES,
};
use avrsim::gui::startup::{parse_host_board, parse_startup_input, StartupInput};
use avrsim::mcu::common::{BoardPin, BoardPinLevel};
use avrsim::project::autobind::{default_project_name, display_stem_for_path, inferred_host_board_from_source};
use avrsim::project::shared::{HostBoard, ModuleOverlay};

fn strings(values: &[&str]) -> Vec<String> {
    values.iter().map(|value| value.to_string()).collect()
}

fn level_of(levels: &[(String, u8)], name: &str) -> Option<u8> {
    levels.iter().find(|(signal, _)| signal == name).map(|(_, level)| *level)
}

// ---------------------------------------------------------------------------
// Main window helpers
// ---------------------------------------------------------------------------

#[test]
fn classify_source_detects_sketches_and_hex_files() {
    assert_eq!(classify_source("", false), SourceAction::NoAction);
    assert_eq!(classify_source("/tmp/hello.ino", false), SourceAction::Compile);
    assert_eq!(classify_source("/tmp/hello.hex", false), SourceAction::LoadHex);
    assert_eq!(classify_source("/tmp/hello.txt", false), SourceAction::NoAction);
}

#[test]
fn sketch_directories_compile() {
    assert_eq!(classify_source("/tmp/hello", true), SourceAction::Compile);
    assert_eq!(classify_source("/tmp/HELLO.INO", false), SourceAction::Compile);
}

#[test]
fn project_name_helpers_are_stable() {
    assert_eq!(default_project_name("/tmp/dewpoint.ino", ""), "dewpoint");
    assert_eq!(default_project_name("", "/tmp/board.kicad_pcb"), "board");
    assert_eq!(default_project_name("", "/tmp/main-controller.board.avrsim.json"), "main-controller");
    assert_eq!(display_stem_for_path("/tmp/controller.board.avrsim"), Some("controller".to_string()));
    assert_eq!(sanitize_project_name("Main Controller Rev A"), "Main-Controller-Rev-A");
}

#[test]
fn displayed_host_board_prefers_selected_target_until_firmware_is_loaded() {
    let snapshot = SimulationSnapshot::default();
    assert_eq!(displayed_host_board(HostBoard::NanoV3, &snapshot), HostBoard::NanoV3);

    let mut loaded = SimulationSnapshot::default();
    loaded.board = HostBoard::Mega2560Rev3;
    loaded.firmware_path = Some("/tmp/blink.hex".to_string());
    assert_eq!(displayed_host_board(HostBoard::NanoV3, &loaded), HostBoard::Mega2560Rev3);
}

#[test]
fn inferred_host_board_detects_common_source_name_hints() {
    assert_eq!(inferred_host_board_from_source("/tmp/nano_pin_sweep.ino"), Some(HostBoard::NanoV3));
    assert_eq!(
        inferred_host_board_from_source("/tmp/mega_pin_sweep.ino"),
        Some(HostBoard::Mega2560Rev3)
    );
    assert_eq!(inferred_host_board_from_source("/tmp/atmega328p_blink.hex"), Some(HostBoard::NanoV3));
    assert_eq!(
        inferred_host_board_from_source("/tmp/atmega2560_blink.hex"),
        Some(HostBoard::Mega2560Rev3)
    );
    assert_eq!(inferred_host_board_from_source("/tmp/controller.ino"), None);
}

#[test]
fn target_runtime_mismatch_and_hot_swap_rules_are_explicit() {
    let snapshot = SimulationSnapshot::default();
    assert!(!target_runtime_board_mismatch(HostBoard::NanoV3, &snapshot));
    assert!(!can_hot_swap_target_without_pcb(false, "/tmp/nano.ino", false, &snapshot));

    let mut loaded = SimulationSnapshot::default();
    loaded.board = HostBoard::Mega2560Rev3;
    loaded.firmware_path = Some("/tmp/blink.hex".to_string());

    assert!(target_runtime_board_mismatch(HostBoard::NanoV3, &loaded));
    assert!(can_hot_swap_target_without_pcb(false, "/tmp/nano.ino", false, &loaded));
    assert!(!can_hot_swap_target_without_pcb(true, "/tmp/nano.ino", false, &loaded));
    assert!(!can_hot_swap_target_without_pcb(false, "/tmp/readme.txt", false, &loaded));
}

#[test]
fn standard_controller_signal_labels_follow_board_preview_conventions() {
    assert_eq!(standard_controller_signal_label(HostBoard::Mega2560Rev3, "A11"), "ADC11");
    assert_eq!(standard_controller_signal_label(HostBoard::Mega2560Rev3, "D30"), "PC7");
    assert_eq!(standard_controller_signal_label(HostBoard::NanoV3, "D13_SCK"), "D13/SCK");
}

#[test]
fn module_suggestions_can_match_protocol_role_names() {
    let available = strings(&["I2C_SDA", "I2C_SCL"]);
    let suggestions = module_signal_suggestions("gy_sht31_d", "SDA", &available);
    assert_eq!(suggestions.first().map(|suggestion| suggestion.net_name.as_str()), Some("I2C_SDA"));
}

#[test]
fn baud_rate_list_is_sorted_and_contains_common_terminal_speed() {
    let rates = common_baud_rates();
    assert!(rates.windows(2).all(|pair| pair[0] < pair[1]));
    assert!(rates.contains(&115_200));
}

#[test]
fn host_signal_names_cover_controller_aliases() {
    assert_eq!(host_signal_names(HostBoard::NanoV3, BoardPin::Digital(13)), &["D13_SCK", "D13"]);
    assert_eq!(host_signal_names(HostBoard::NanoV3, BoardPin::Analog(4)), &["A4_SDA", "A4"]);
    assert_eq!(host_signal_names(HostBoard::Mega2560Rev3, BoardPin::Digital(44)), &["D44_PWM", "D44"]);
    assert_eq!(host_signal_names(HostBoard::Mega2560Rev3, BoardPin::Digital(50)), &["D50_MISO", "D50"]);
}

#[test]
fn snapshot_host_pin_levels_expand_to_named_host_signals() {
    let mut snapshot = SimulationSnapshot::default();
    snapshot.board = HostBoard::NanoV3;
    snapshot.status = SimulatorStatus::Running;
    snapshot.host_pin_levels = vec![
        BoardPinLevel { pin: BoardPin::Digital(13), level: 1 },
        BoardPinLevel { pin: BoardPin::Analog(4), level: 1 },
    ];
    let levels = host_signal_levels_for_snapshot(&snapshot);
    assert_eq!(level_of(&levels, "D13_SCK"), Some(1));
    assert_eq!(level_of(&levels, "D13"), Some(1));
    assert_eq!(level_of(&levels, "A4_SDA"), Some(1));
    assert_eq!(level_of(&levels, "A4"), Some(1));
}

#[test]
fn module_overlay_names_increment_cleanly() {
    let existing = vec![ModuleOverlay {
        name: "gy_sht31_d_1".to_string(),
        model: "gy_sht31_d".to_string(),
        bindings: Vec::new(),
    }];
    assert_eq!(next_module_overlay_name("gy_sht31_d", &existing), "gy_sht31_d_2");
}

#[test]
fn module_overlay_names_drop_module_suffixes() {
    assert_eq!(next_module_overlay_name("mcp2515_tja1050_can_module", &[]), "mcp2515_tja1050_can_1");
    assert_eq!(next_module_overlay_name("relay_board", &[]), "relay_1");
}

#[test]
fn module_aliases_cover_common_spi_and_can_nets() {
    let aliases = module_signal_aliases("mcp2515_tja1050_can_module", "CS");
    assert!(aliases.contains(&"/10".to_string()));
    assert!(aliases.contains(&"/27".to_string()));
    let canh = module_signal_aliases("mcp2515_tja1050_can_module", "CANH");
    assert!(canh.contains(&"CAN_H".to_string()));
}

#[test]
fn status_register_shows_each_flag() {
    assert_eq!(format_sreg(0), "I0 T0 H0 S0 V0 N0 Z0 C0");
    assert_eq!(format_sreg(0xFF), "I1 T1 H1 S1 V1 N1 Z1 C1");
    assert_eq!(format_sreg(0x02), "I0 T0 H0 S0 V0 N0 Z1 C0");
}

#[test]
fn preview_aliases_keep_only_nets_on_the_board() {
    let nets = strings(&["/PA5", "GND"]);
    let aliases = preview_net_aliases(HostBoard::Mega2560Rev3, "D27", &nets);
    assert!(aliases.contains(&"/PA5".to_string()));
    assert!(!aliases.contains(&"GND".to_string()));
}

// ---------------------------------------------------------------------------
// Simulation
// ---------------------------------------------------------------------------

#[test]
fn serial_text_normalizes_carriage_returns() {
    let text = serial_text(b"hello\r\nworld\r\n");
    assert_eq!(text, "hello\nworld\n");
}

#[test]
fn default_snapshot_starts_idle() {
    let snapshot = SimulationSnapshot::default();
    assert_eq!(snapshot.status, SimulatorStatus::Idle);
    assert!(snapshot.status_message.contains("Load"));
}

#[test]
fn simulator_status_labels_and_shared_defaults_are_stable() {
    let cases = [
        (SimulatorStatus::Idle, "Idle"),
        (SimulatorStatus::Compiling, "Compiling"),
        (SimulatorStatus::Ready, "Ready"),
        (SimulatorStatus::Running, "Running"),
        (SimulatorStatus::Paused, "Paused"),
        (SimulatorStatus::Break, "Break"),
        (SimulatorStatus::Sleep, "Sleep"),
        (SimulatorStatus::Done, "Done"),
        (SimulatorStatus::Error, "Error"),
    ];
    for (status, label) in cases {
        assert_eq!(status.label(), label);
    }
    let shared = SharedSimulationState::default();
    assert_eq!(shared.sequence, 1);
    assert_eq!(shared.snapshot.status, SimulatorStatus::Idle);
}

#[test]
fn serial_text_keeps_only_the_recent_tail() {
    let mut bytes = vec![b'A'; 32];
    bytes.extend(vec![b'B'; SERIAL_TAIL_BYTES]);
    let text = serial_text(&bytes);
    assert_eq!(text.len(), SERIAL_TAIL_BYTES);
    assert!(text.starts_with('B'));
    assert!(!text.contains('A'));
}

#[test]
fn serial_text_replaces_invalid_bytes() {
    let text = serial_text(&[b'o', 0xFF, b'k']);
    assert_eq!(text, "o\u{FFFD}k");
}

#[test]
fn format_compile_log_includes_command_output_and_loaded_hex_path() {
    let artifact = CompileArtifact {
        board: HostBoard::Mega2560Rev3,
        sketch_path: "/tmp/blink".to_string(),
        build_path: "/tmp/build".to_string(),
        hex_path: "/tmp/build/blink.ino.hex".to_string(),
        stdout: "compiled".to_string(),
        stderr: "warnings".to_string(),
    };
    let rendered = format_compile_log(&artifact);
    assert!(rendered.contains("arduino-cli compile --fqbn arduino:avr:mega"));
    assert!(rendered.contains("--- stdout ---\ncompiled\n"));
    assert!(rendered.contains("--- stderr ---\nwarnings\n"));
    assert!(rendered.contains("Loaded HEX: /tmp/build/blink.ino.hex"));
}

#[test]
fn duration_for_cycles_matches_the_simulated_16mhz_clock() {
    assert_eq!(duration_for_cycles(16_000_000, 16_000_000), (1, 0));
    assert_eq!(duration_for_cycles(8_000_000, 16_000_000), (0, 500_000_000));
    assert_eq!(duration_for_cycles(0, 16_000_000), (0, 0));
    assert_eq!(duration_for_cycles(5, 0), (0, 0));
}

// ---------------------------------------------------------------------------
// Compiling sketches
// ---------------------------------------------------------------------------

#[test]
fn sanitize_name_replaces_invalid_characters_and_defaults_when_empty() {
    assert_eq!(sanitize_name("hello world!"), "hello-world-");
    assert_eq!(sanitize_name("already_ok"), "already_ok");
    assert_eq!(sanitize_name(""), "sketch");
}

#[test]
fn resolve_compile_plan_accepts_ino_file() {
    let plan = resolve_compile_plan("/tmp/sketches/hello/hello.ino", HostBoard::NanoV3, false).expect("plan");
    assert_eq!(plan.board, HostBoard::NanoV3);
    assert_eq!(plan.sketch_path, "/tmp/sketches/hello");
    assert_eq!(plan.sketch_name, "hello");
}

#[test]
fn resolve_compile_plan_accepts_sketch_directory() {
    let plan =
        resolve_compile_plan("/tmp/sketches/controller", HostBoard::Mega2560Rev3, true).expect("plan");
    assert_eq!(plan.sketch_path, "/tmp/sketches/controller");
    assert_eq!(plan.sketch_name, "controller");
}

#[test]
fn resolve_compile_plan_rejects_unsupported_sources() {
    assert!(matches!(
        resolve_compile_plan("/tmp/notes.txt", HostBoard::NanoV3, false),
        Err(ArduinoCliError::UnsupportedSource(path)) if path == "/tmp/notes.txt"
    ));
}

#[test]
fn find_hex_output_prefers_plain_application_hex() {
    let files = strings(&["hello.ino.hex", "hello.ino.with_bootloader.hex"]);
    assert_eq!(choose_hex_output("hello", true, &files), Some("hello.ino.hex".to_string()));
}

#[test]
fn find_hex_output_falls_back_to_sorted_candidates() {
    let files = strings(&["zeta.ino.hex", "alpha.ino.with_bootloader.hex", "alpha.ino.hex"]);
    assert_eq!(choose_hex_output("missing", false, &files), Some("alpha.ino.hex".to_string()));
    assert_eq!(choose_hex_output("missing", false, &strings(&["notes.txt"])), None);
}

#[test]
fn build_names_and_commands_follow_the_board() {
    assert_eq!(
        build_directory_name("my sketch", HostBoard::NanoV3, 42),
        "arduino-simulator-my-sketch-nano-42"
    );
    assert_eq!(
        compile_command_text(HostBoard::Mega2560Rev3, "/b", "/s"),
        "arduino-cli compile --fqbn arduino:avr:mega --build-path /b /s"
    );
}

#[test]
fn error_display_messages_are_human_readable() {
    let io_error = ArduinoCliError::Io("tool missing".to_string());
    assert_eq!(io_error.message(), "tool missing");
    let unsupported = ArduinoCliError::UnsupportedSource("notes.txt".to_string());
    assert_eq!(unsupported.message(), "expected a sketch directory or .ino file, got notes.txt");
    let missing_parent = ArduinoCliError::MissingSketchParent("hello.ino".to_string());
    assert_eq!(missing_parent.message(), "missing parent directory for hello.ino");
    let missing_name = ArduinoCliError::MissingSketchName("/tmp/.ino".to_string());
    assert_eq!(missing_name.message(), "could not determine sketch name for /tmp/.ino");
    let missing_hex = ArduinoCliError::MissingHexOutput("/tmp/build".to_string());
    assert_eq!(
        missing_hex.message(),
        "arduino-cli finished but no .hex output was found in /tmp/build"
    );
    let failed = ArduinoCliError::CommandFailed {
        command: "arduino-cli compile".to_string(),
        stdout: "build output".to_string(),
        stderr: "bad exit".to_string(),
    };
    assert!(failed
        .message()
        .contains("arduino-cli compile failed\nstdout:\nbuild output\n\nstderr:\nbad exit"));
}

// ---------------------------------------------------------------------------
// Start-up arguments and PCB preview layers
// ---------------------------------------------------------------------------

#[test]
fn startup_arguments_open_a_project_or_a_pcb() {
    assert!(parse_startup_input(&strings(&[])).is_none());
    match parse_startup_input(&strings(&["--project", "/tmp/p.avrsim.json"])) {
        Some(StartupInput::Project(path)) => assert_eq!(path, "/tmp/p.avrsim.json"),
        other => panic!("unexpected {:?}", other),
    }
    match parse_startup_input(&strings(&["--pcb", "/tmp/a.kicad_pcb", "--board", "nano"])) {
        Some(StartupInput::Pcb { path, board }) => {
            assert_eq!(path, "/tmp/a.kicad_pcb");
            assert_eq!(board, Some(HostBoard::NanoV3));
        }
        other => panic!("unexpected {:?}", other),
    }
    match parse_startup_input(&strings(&["/tmp/q.avrsim.json"])) {
        Some(StartupInput::Project(path)) => assert_eq!(path, "/tmp/q.avrsim.json"),
        other => panic!("unexpected {:?}", other),
    }
    assert_eq!(parse_host_board("mega"), Some(HostBoard::Mega2560Rev3));
    assert_eq!(parse_host_board("uno"), None);
}

#[test]
fn preview_keeps_copper_and_outline_layers() {
    assert!(preview_track_layer("F.Cu"));
    assert!(!preview_track_layer("F.SilkS"));
    assert!(preview_graphics_layer("Edge.Cuts"));
}

// ---------------------------------------------------------------------------
// The simulator worker
// ---------------------------------------------------------------------------

use avrsim::gui::simulation::{
    format_instruction, map_runtime_exit, serial_cycles_per_byte, DecodedInstruction,
    OperandSet, PendingSerialInjection, PointerMode, PointerRegister, RunExit, WorkerState,
};

#[test]
fn runtime_exit_mapping_matches_simulator_statuses() {
    assert_eq!(map_runtime_exit(Some(RunExit::BreakHit)), Some(SimulatorStatus::Break));
    assert_eq!(map_runtime_exit(Some(RunExit::Sleeping)), Some(SimulatorStatus::Sleep));
    assert_eq!(map_runtime_exit(Some(RunExit::UntilSerialSatisfied)), Some(SimulatorStatus::Done));
    assert_eq!(map_runtime_exit(Some(RunExit::MaxInstructionsReached)), None);
    assert_eq!(map_runtime_exit(None), None);
}

#[test]
fn format_instruction_renders_operands_and_next_word() {
    let instruction = DecodedInstruction {
        address: 0x40,
        opcode: 0x9002,
        next_word: Some(0xCAFE),
        mnemonic: "LdDisp".to_string(),
        word_length: 2,
        operands: OperandSet {
            d: Some(18),
            r: Some(3),
            a: Some(0x20),
            b: Some(4),
            s: Some(6),
            k: Some(7),
            q: Some(2),
            pointer: Some(PointerRegister::Y),
            mode: Some(PointerMode::PreDecrement),
        },
    };
    let rendered = format_instruction(&instruction);
    assert!(rendered.contains("0x000040: LdDisp"));
    assert!(rendered.contains("opcode=0x9002"));
    assert!(rendered.contains("next=0xCAFE"));
    assert!(rendered.contains("-Y"));
    assert!(rendered.contains("d=r18"));
    assert!(rendered.contains("r=r3"));
    assert!(rendered.contains("a=0x20"));
    assert!(rendered.contains("b=4"));
    assert!(rendered.contains("s=6"));
    assert!(rendered.contains("k=7"));
    assert!(rendered.contains("q=2"));
    assert_eq!(
        rendered,
        "0x000040: LdDisp (opcode=0x9002 next=0xCAFE) -Y d=r18 r=r3 a=0x20 b=4 s=6 k=7 q=2"
    );
}

#[test]
fn format_instruction_without_operands_ends_after_the_opcode() {
    let instruction = DecodedInstruction {
        address: 0x1234,
        opcode: 0x0000,
        next_word: None,
        mnemonic: "Nop".to_string(),
        word_length: 1,
        operands: OperandSet {
            d: None,
            r: None,
            a: None,
            b: None,
            s: None,
            k: None,
            q: None,
            pointer: None,
            mode: None,
        },
    };
    assert_eq!(format_instruction(&instruction), "0x001234: Nop (opcode=0x0000)");
}

#[test]
fn capture_snapshot_without_runtime_preserves_worker_metadata() {
    let mut state = WorkerState::new();
    state.loaded_board = HostBoard::NanoV3;
    state.source_path = Some("sketches/blink.ino".to_string());
    state.firmware_path = Some("build/blink.hex".to_string());
    state.compile_log = "compile ok".to_string();
    state.status = SimulatorStatus::Error;
    state.status_message = "compile failed".to_string();

    let snapshot = state.capture_snapshot();
    assert_eq!(snapshot.board, HostBoard::NanoV3);
    assert_eq!(snapshot.status, SimulatorStatus::Error);
    assert_eq!(snapshot.source_path, Some("sketches/blink.ino".to_string()));
    assert_eq!(snapshot.firmware_path, Some("build/blink.hex".to_string()));
    assert_eq!(snapshot.compile_log, "compile ok");
    assert_eq!(snapshot.status_message, "compile failed");
}

#[test]
fn load_results_set_ready_or_error_state() {
    let mut state = WorkerState::new();
    state.load_runtime_from_hex(HostBoard::NanoV3, Some("/tmp/blink.ino".to_string()), "/tmp/blink.hex", Ok(()));
    assert_eq!(state.status, SimulatorStatus::Ready);
    assert_eq!(state.status_message, "Loaded /tmp/blink.hex for Arduino Nano (ATmega328P)");
    assert_eq!(state.source_path, Some("/tmp/blink.ino".to_string()));
    assert_eq!(state.firmware_path, Some("/tmp/blink.hex".to_string()));

    state.load_runtime_from_hex(HostBoard::Mega2560Rev3, None, "/tmp/broken.hex", Err("bad record".to_string()));
    assert_eq!(state.status, SimulatorStatus::Error);
    assert_eq!(state.status_message, "bad record");
    assert_eq!(state.firmware_path, Some("/tmp/broken.hex".to_string()));
}

#[test]
fn run_pause_and_step_follow_the_status() {
    let mut state = WorkerState::new();
    assert!(!state.request_run(false));
    state.status = SimulatorStatus::Ready;
    assert!(state.request_run(true));
    assert_eq!(state.status, SimulatorStatus::Running);
    assert!(!state.request_run(true));
    assert!(state.request_pause(true));
    assert_eq!(state.status, SimulatorStatus::Paused);
    state.finish_step(Ok(None));
    assert_eq!(state.status, SimulatorStatus::Paused);
    assert_eq!(state.status_message, "Stepped one instruction");
    state.finish_step(Ok(Some(SimulatorStatus::Break)));
    assert_eq!(state.status, SimulatorStatus::Break);
    state.finish_chunk(Ok(Some(SimulatorStatus::Sleep)));
    assert_eq!(state.status_message, "CPU entered sleep");
    state.finish_chunk(Err("bus fault".to_string()));
    assert_eq!(state.status, SimulatorStatus::Error);
    state.stop_without_runtime();
    assert_eq!(state.status, SimulatorStatus::Idle);
    assert_eq!(state.status_message, "No firmware loaded");
}

#[test]
fn service_pending_serial_injects_bytes_when_cycles_advance() {
    let mut state = WorkerState::new();
    state.pending_serial.push(PendingSerialInjection {
        remaining: vec![b'O', b'K'],
        cycles_per_byte: 10,
        next_cycle: 0,
    });
    assert_eq!(state.service_pending_serial(0), vec![b'O']);
    assert_eq!(state.pending_serial.len(), 1);
    assert_eq!(state.service_pending_serial(9), Vec::<u8>::new());
    assert_eq!(state.service_pending_serial(10), vec![b'K']);
    assert!(state.pending_serial.is_empty());
}

#[test]
fn queued_serial_input_is_paced_by_the_baud_rate() {
    assert_eq!(serial_cycles_per_byte(16_000_000, 9600), 16_666);
    assert_eq!(serial_cycles_per_byte(16_000_000, 0), 160_000_000);
    let mut state = WorkerState::new();
    assert!(!state.queue_serial(true, &[], 9600, 16_000_000, 5));
    assert!(!state.queue_serial(false, b"hi", 9600, 16_000_000, 5));
    assert!(state.queue_serial(true, b"hi", 9600, 16_000_000, 5));
    assert_eq!(state.status_message, "Queued serial input at 9600 baud");
    assert_eq!(state.pending_serial[0].next_cycle, 5);
    assert_eq!(state.pending_serial[0].cycles_per_byte, 16_666);
    assert_eq!(state.service_pending_serial(5), vec![b'h']);
    assert_eq!(state.service_pending_serial(16_671), vec![b'i']);
}

#[test]
fn recent_host_pin_activity_survives_fast_high_to_low_transitions() {
    let mut state = WorkerState::new();
    state.loaded_board = HostBoard::NanoV3;
    state.refresh_host_pin_activity(Some(vec![BoardPinLevel { pin: BoardPin::Digital(13), level: 1 }]), 1000);
    state.refresh_host_pin_activity(Some(vec![BoardPinLevel { pin: BoardPin::Digital(13), level: 0 }]), 1001);
    assert!(state
        .recent_host_pin_activity(1002)
        .iter()
        .any(|entry| entry.pin == BoardPin::Digital(13) && entry.level == 1));
    assert_eq!(
        state.last_host_pin_levels.iter().find(|entry| entry.pin == BoardPin::Digital(13)).map(|e| e.level),
        Some(0)
    );
    assert!(state.recent_host_pin_activity(1000 + 2000).is_empty());
    state.refresh_host_pin_activity(None, 1003);
    assert!(state.last_host_pin_levels.is_empty());
    assert!(state.host_pin_activity_until.is_empty());
}

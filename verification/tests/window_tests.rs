use avrsim::gui::pcb_view::LoadedPcb;
use avrsim::gui::simulation::{SharedSimulationState, SimulationSnapshot, SimulatorStatus};
use avrsim::gui::window::{AvrSimGuiApp, SourceReload};
use avrsim::mcu::common::{BoardPin, BoardPinLevel};
use avrsim::project::shared::{
    BindingMode, FirmwareSource, FirmwareSourceKind, HostBoard, ModuleOverlay, ModuleSignalBinding,
    PcbSource, SignalBinding,
};
use avrsim::project::simulation_project::SimulationProject;

fn strings(values: &[&str]) -> Vec<String> {
    values.iter().map(|value| value.to_string()).collect()
}

fn window() -> AvrSimGuiApp {
    AvrSimGuiApp::new(SharedSimulationState::default())
}

fn pcb(nets: &[&str]) -> LoadedPcb {
    LoadedPcb {
        components: Vec::new(),
        net_names: strings(nets),
        track_nets: Vec::new(),
        pad_nets: Vec::new(),
        via_nets: Vec::new(),
    }
}

fn binding(signal: &str, net: &str) -> SignalBinding {
    SignalBinding {
        board_signal: signal.to_string(),
        pcb_net: net.to_string(),
        mode: BindingMode::Digital,
        note: None,
    }
}

fn project(bindings: Vec<SignalBinding>) -> SimulationProject {
    SimulationProject {
        format_version: "0.3.0".to_string(),
        name: "Bench".to_string(),
        description: None,
        host_board: HostBoard::NanoV3,
        firmware: FirmwareSource {
            kind: FirmwareSourceKind::Hex,
            path: "/work/bench.hex".to_string(),
            compiled_hex_path: None,
        },
        pcb: PcbSource { path: "/work/bench.kicad_pcb".to_string(), board_name_hint: None },
        root_assembly: None,
        module_overlays: Vec::new(),
        bindings,
        probes: Vec::new(),
        stimuli: Vec::new(),
    }
}

#[test]
fn a_new_window_starts_empty_on_the_mega() {
    let app = window();
    assert_eq!(app.selected_board, HostBoard::Mega2560Rev3);
    assert_eq!(app.project_name, "Untitled Simulation");
    assert_eq!(app.pending_module_model, "gy_sht31_d");
    assert_eq!(app.serial_terminal_baud, 115_200);
    assert!(app.serial_append_line_ending);
    assert_eq!(app.last_sequence, 1);
}

#[test]
fn new_snapshots_replace_the_shown_one_once() {
    let mut app = window();
    let mut latest = SharedSimulationState::default();
    latest.sequence = 2;
    let mut snapshot = SimulationSnapshot::default();
    snapshot.board = HostBoard::NanoV3;
    snapshot.status = SimulatorStatus::Running;
    snapshot.host_pin_levels = vec![BoardPinLevel { pin: BoardPin::Digital(13), level: 1 }];
    latest.snapshot = snapshot;
    app.refresh_snapshot(latest, 100);
    assert_eq!(app.last_sequence, 2);
    assert_eq!(app.snapshot.status, SimulatorStatus::Running);
    assert_eq!(app.host_activity.status_text("D13_SCK", 100), "activity pulse");

    let mut same = SharedSimulationState::default();
    same.sequence = 2;
    app.refresh_snapshot(same, 200);
    assert_eq!(app.snapshot.status, SimulatorStatus::Running);
}

#[test]
fn loading_a_pcb_auto_wires_the_controller_and_modules() {
    let mut app = window();
    app.module_overlays = vec![ModuleOverlay {
        name: "can_1".to_string(),
        model: "mcp2515_tja1050_can_module".to_string(),
        bindings: Vec::new(),
    }];
    let host_signals = strings(&["D22", "D23"]);
    let module_names = vec![strings(&["CANH", "CANL"])];
    app.load_pcb_path(
        "/work/main.kicad_pcb",
        Ok(pcb(&["D22", "D23", "/CANH", "/CANL"])),
        true,
        &host_signals,
        &module_names,
    );
    assert_eq!(app.pcb_path, "/work/main.kicad_pcb");
    assert!(app.loaded_pcb.is_some());
    assert_eq!(app.bindings.len(), 2);
    assert_eq!(app.module_overlays[0].bindings.len(), 2);
    assert_eq!(
        app.project_notice,
        "Loaded PCB /work/main.kicad_pcb and auto-wired 2 controller pin(s) plus 2 module signal(s)."
    );
}

#[test]
fn loading_a_pcb_refreshes_stale_bindings() {
    let mut app = window();
    app.bindings = vec![binding("D22", "/22"), binding("D23", "D23")];
    let host_signals = strings(&["D22", "D23"]);
    app.load_pcb_path("/work/main.kicad_pcb", Ok(pcb(&["D22", "D23"])), false, &host_signals, &[]);
    assert_eq!(
        app.project_notice,
        "Loaded PCB /work/main.kicad_pcb and refreshed 1 controller binding(s) after dropping 1 stale net reference(s); rewired 0 module signal(s)."
    );

    app.load_pcb_path("/work/main.kicad_pcb", Ok(pcb(&["D22", "D23"])), false, &host_signals, &[]);
    assert_eq!(
        app.project_notice,
        "Loaded PCB /work/main.kicad_pcb with 2 controller binding(s) and rewired 0 module signal(s)."
    );
}

#[test]
fn pcb_load_failures_and_empty_paths_are_reported() {
    let mut app = window();
    app.load_pcb_path("", Err(String::new()), true, &[], &[]);
    assert_eq!(app.project_notice, "Select a .kicad_pcb file first.");

    app.loaded_pcb = Some(pcb(&["GND"]));
    app.load_pcb_path("/work/broken.kicad_pcb", Err("bad file".to_string()), true, &[], &[]);
    assert!(app.loaded_pcb.is_none());
    assert_eq!(app.project_notice, "PCB load failed: bad file");
}

#[test]
fn module_overlays_get_fresh_names_and_are_wired() {
    let mut app = window();
    app.loaded_pcb = Some(pcb(&["SDA", "SCL"]));
    app.add_pending_module_overlay(&strings(&["SCL", "SDA"]));
    app.add_pending_module_overlay(&strings(&["SCL", "SDA"]));
    assert_eq!(app.module_overlays[0].name, "gy_sht31_d_1");
    assert_eq!(app.module_overlays[1].name, "gy_sht31_d_2");
    assert_eq!(app.module_overlays[1].bindings.len(), 2);
    assert_eq!(
        app.project_notice,
        "Added module overlay gy_sht31_d_2 and wired 2 signal(s) to the current PCB."
    );

    app.loaded_pcb = None;
    let names = vec![strings(&["SCL", "SDA"]), strings(&["SCL", "SDA"])];
    assert_eq!(app.auto_wire_all_modules(&names), 0);
    assert!(app.module_overlays.iter().all(|m| m.bindings.is_empty()));
}

#[test]
fn applying_a_project_keys_bindings_by_signal() {
    let mut app = window();
    let loaded = project(vec![binding("D3", "/3"), binding("D2", "/2"), binding("D3", "/33")]);
    app.apply_project(loaded, "/work/bench.avrsim.json");
    assert_eq!(app.selected_board, HostBoard::NanoV3);
    assert_eq!(app.project_name, "Bench");
    assert_eq!(app.project_path, "/work/bench.avrsim.json");
    assert_eq!(app.source_path, "/work/bench.hex");
    assert_eq!(app.pcb_path, "/work/bench.kicad_pcb");
    let pairs: Vec<(&str, &str)> = app
        .bindings
        .iter()
        .map(|b| (b.board_signal.as_str(), b.pcb_net.as_str()))
        .collect();
    assert_eq!(pairs, vec![("D2", "/2"), ("D3", "/33")]);
    assert_eq!(
        app.project_notice,
        "Loaded project with 2 binding(s), 0 probe(s), and 0 stimulus/stimuli."
    );
}

#[test]
fn loading_project_files_reports_failures() {
    let mut app = window();
    assert!(!app.load_project_file("/x.json", Err("no such file".to_string()), None, &[]));
    assert_eq!(app.project_notice, "Open failed: no such file");

    assert!(!app.load_project_file("/x.json", Ok(project(Vec::new())), None, &[]));
    assert_eq!(app.project_notice, "Project is invalid: unknown built-in board model arduino_nano_v3");

    let signals = strings(&["D13"]);
    assert!(app.load_project_file("/x.json", Ok(project(Vec::new())), Some(&signals), &[]));
    assert_eq!(app.project_path, "/x.json");
}

#[test]
fn switching_targets_reloads_running_unwired_firmware() {
    let mut app = window();
    app.source_path = " /work/blink.ino ".to_string();
    assert!(matches!(app.reload_source_for_selected_board_if_unwired(false), SourceReload::Keep));

    app.snapshot.firmware_path = Some("/tmp/blink.hex".to_string());
    match app.reload_source_for_selected_board_if_unwired(false) {
        SourceReload::Compile(path) => assert_eq!(path, "/work/blink.ino"),
        _ => panic!("expected a compile"),
    }
    assert_eq!(
        app.project_notice,
        "Switched target to Arduino Mega 2560 and recompiling /work/blink.ino."
    );

    app.source_path = "/work/blink.hex".to_string();
    match app.reload_source_for_selected_board_if_unwired(false) {
        SourceReload::LoadHex(path) => assert_eq!(path, "/work/blink.hex"),
        _ => panic!("expected a reload"),
    }

    app.loaded_pcb = Some(pcb(&["GND"]));
    assert!(matches!(app.reload_source_for_selected_board_if_unwired(false), SourceReload::Keep));
}

#[test]
fn serial_input_is_sent_with_a_line_ending() {
    let mut app = window();
    assert!(app.send_serial_input().is_none());
    app.serial_input = "hé".to_string();
    let (payload, baud) = app.send_serial_input().expect("payload");
    assert_eq!(payload, vec![b'h', 0xC3, 0xA9, b'\n']);
    assert_eq!(baud, 115_200);
    assert!(app.serial_input.is_empty());
    assert_eq!(app.project_notice, "Sent serial input at 115200 baud.");

    app.serial_append_line_ending = false;
    app.serial_input = "ok".to_string();
    assert_eq!(app.send_serial_input().expect("payload").0, b"ok".to_vec());
}

#[test]
fn module_bindings_of_overlays_stay_put_without_changes() {
    let mut app = window();
    app.loaded_pcb = Some(pcb(&["UNRELATED"]));
    app.module_overlays = vec![ModuleOverlay {
        name: "x_1".to_string(),
        model: "x".to_string(),
        bindings: vec![ModuleSignalBinding {
            module_signal: "PWM".to_string(),
            pcb_net: "/MANUAL".to_string(),
            mode: BindingMode::Analog,
            note: None,
        }],
    }];
    assert_eq!(app.auto_wire_all_modules(&[strings(&["PWM"])]), 1);
    assert_eq!(app.module_overlays[0].bindings[0].pcb_net, "/MANUAL");
}

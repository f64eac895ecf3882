use avrsim::kicad::{
    classify_firmware_source, default_output_path, gui_arguments_for_pcb,
    gui_arguments_for_project, new_generated_project, open_pcb_host_board, parse_command,
    parse_create_project_options, parse_open_pcb_options, parse_requested_board,
    parse_sync_project_options, resolve_requested_board, sync_project_bindings, CliCommand,
    CreateProjectOptions, KiCadCliError, RequestedHostBoard,
};
use avrsim::project::shared::{BindingMode, FirmwareSourceKind, HostBoard, SignalBinding};

fn args(values: &[&str]) -> Vec<String> {
    values.iter().map(|value| value.to_string()).collect()
}

#[test]
fn firmware_classifier_accepts_ino_and_hex_inputs() {
    assert!(matches!(
        classify_firmware_source("/examples/ino/mega_pin_sweep/mega_pin_sweep.ino", false),
        Ok(FirmwareSourceKind::Ino)
    ));
    assert!(matches!(classify_firmware_source("/tmp/test.hex", false), Ok(FirmwareSourceKind::Hex)));
}

#[test]
fn firmware_classifier_accepts_sketch_directories_and_rejects_other_files() {
    assert!(matches!(classify_firmware_source("/tmp/sketch", true), Ok(FirmwareSourceKind::Ino)));
    assert!(matches!(
        classify_firmware_source("/tmp/readme.txt", false),
        Err(KiCadCliError::UnsupportedFirmwarePath(path)) if path == "/tmp/readme.txt"
    ));
}

#[test]
fn board_parser_accepts_auto_mega_nano() {
    assert_eq!(parse_requested_board(None).unwrap(), RequestedHostBoard::Auto);
    assert_eq!(parse_requested_board(Some("mega")).unwrap(), RequestedHostBoard::Mega);
    assert_eq!(parse_requested_board(Some("nano")).unwrap(), RequestedHostBoard::Nano);
}

#[test]
fn board_parser_rejects_unknown_boards() {
    assert!(matches!(parse_requested_board(Some("uno")), Err(KiCadCliError::Usage(_))));
    assert_eq!(parse_requested_board(Some(" MEGA ")).unwrap(), RequestedHostBoard::Mega);
}

#[test]
fn default_output_path_tracks_the_pcb_file_name() {
    assert_eq!(
        default_output_path("/tmp/mega_r3_sidecar_controller_rev_a.kicad_pcb"),
        "/tmp/mega_r3_sidecar_controller_rev_a.avrsim.json"
    );
}

#[test]
fn open_pcb_parser_accepts_board_and_path() {
    let parsed =
        parse_open_pcb_options(&args(&["--pcb", "/tmp/demo.kicad_pcb", "--board", "mega"])).expect("parse");
    assert_eq!(parsed.pcb_path, "/tmp/demo.kicad_pcb");
    assert_eq!(parsed.requested_board.as_deref(), Some("mega"));
}

#[test]
fn create_project_parser_needs_pcb_and_firmware() {
    let parsed = parse_create_project_options(&args(&[
        "--pcb",
        "/tmp/board.kicad_pcb",
        "--firmware",
        "/tmp/fw.ino",
        "--name",
        "Demo",
    ]))
    .expect("parse");
    assert_eq!(parsed.pcb_path, "/tmp/board.kicad_pcb");
    assert_eq!(parsed.firmware_path, "/tmp/fw.ino");
    assert_eq!(parsed.name.as_deref(), Some("Demo"));
    assert!(!parsed.launch_gui);

    assert!(matches!(
        parse_create_project_options(&args(&["--pcb", "/tmp/board.kicad_pcb"])),
        Err(KiCadCliError::Usage(_))
    ));
    assert!(matches!(
        parse_create_project_options(&args(&["--pcb"])),
        Err(KiCadCliError::Usage(_))
    ));
}

#[test]
fn sync_parser_reads_project_path() {
    let parsed = parse_sync_project_options(&args(&["--project", "/tmp/p.avrsim.json", "--launch-gui"]))
        .expect("parse");
    assert_eq!(parsed.project_path, "/tmp/p.avrsim.json");
    assert!(parsed.launch_gui);
}

#[test]
fn commands_are_dispatched_by_name() {
    assert!(matches!(parse_command(&args(&["avrsim-kicad"])), Err(KiCadCliError::Usage(_))));
    assert!(matches!(parse_command(&args(&["avrsim-kicad", "help"])), Ok(CliCommand::Help)));
    assert!(matches!(
        parse_command(&args(&["avrsim-kicad", "open-pcb", "--pcb", "/tmp/a.kicad_pcb"])),
        Ok(CliCommand::OpenPcb(_))
    ));
    assert!(matches!(
        parse_command(&args(&["avrsim-kicad", "frobnicate"])),
        Err(KiCadCliError::Usage(_))
    ));
}

#[test]
fn boards_are_resolved_from_request_then_names() {
    assert_eq!(
        resolve_requested_board(RequestedHostBoard::Auto, "/tmp/nano_blink.ino", "/tmp/x.kicad_pcb"),
        HostBoard::NanoV3
    );
    assert_eq!(
        resolve_requested_board(RequestedHostBoard::Nano, "/tmp/mega.ino", "/tmp/x.kicad_pcb"),
        HostBoard::NanoV3
    );
    assert_eq!(
        resolve_requested_board(RequestedHostBoard::Auto, "/tmp/blink.ino", "/tmp/x.kicad_pcb"),
        HostBoard::Mega2560Rev3
    );
    assert_eq!(open_pcb_host_board(RequestedHostBoard::Auto, "/tmp/nano_board.kicad_pcb"), HostBoard::NanoV3);
}

#[test]
fn generated_projects_bind_the_board_and_sync_repairs_bindings() {
    let options = CreateProjectOptions {
        pcb_path: "/tmp/board.kicad_pcb".to_string(),
        firmware_path: "/tmp/dewpoint.ino".to_string(),
        out_path: None,
        name: None,
        launch_gui: false,
        requested_board: None,
    };
    let host_signals = args(&["D27", "+5V"]);
    let nets = args(&["/PA5", "+5V"]);
    let mut project = new_generated_project(
        &options,
        HostBoard::Mega2560Rev3,
        FirmwareSourceKind::Ino,
        &host_signals,
        &nets,
    );
    assert_eq!(project.name, "dewpoint");
    assert!(project.bindings.iter().any(|b| b.board_signal == "D27" && b.pcb_net == "/PA5"));

    project.bindings.retain(|binding| binding.board_signal != "D27");
    project.bindings.push(SignalBinding {
        board_signal: "GONE".to_string(),
        pcb_net: "/PA5".to_string(),
        mode: BindingMode::Digital,
        note: None,
    });
    sync_project_bindings(&mut project, HostBoard::Mega2560Rev3, &host_signals, &nets);
    assert!(project.bindings.iter().any(|b| b.board_signal == "D27" && b.pcb_net == "/PA5"));
    assert!(!project.bindings.iter().any(|b| b.board_signal == "GONE"));
}

#[test]
fn gui_arguments_name_the_project_or_the_board() {
    assert_eq!(gui_arguments_for_project("/tmp/p.avrsim.json"), vec!["--project", "/tmp/p.avrsim.json"]);
    assert_eq!(
        gui_arguments_for_pcb("/tmp/a.kicad_pcb", Some(HostBoard::NanoV3)),
        vec!["--pcb", "/tmp/a.kicad_pcb", "--board", "nano"]
    );
}

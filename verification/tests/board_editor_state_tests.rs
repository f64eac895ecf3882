use avrsim::gui::board_editor_edits::CanvasEvent;
use avrsim::gui::board_editor::{derive_ports_from_net_names, PRIMARY_MEMBER_ID};
use avrsim::gui::board_editor_state::BoardEditorState;
use avrsim::gui::pcb_view::LoadedPcb;
use avrsim::project::assembly_bundle::AssemblyMemberKind;
use avrsim::project::definitions::{
    AttachmentEndpoint, DefinitionReferenceKind, DefinitionSourceKind, PortClass, PortDefinition,
    PortDirection,
};
use avrsim::project::shared::HostBoard;

fn strings(values: &[&str]) -> Vec<String> {
    values.iter().map(|value| value.to_string()).collect()
}

fn mega_ports() -> Vec<PortDefinition> {
    derive_ports_from_net_names(&strings(&[
        "+5V", "GND", "D22", "D23", "A8", "D50_MISO", "D51_MOSI", "D52_SCK", "D53_SS",
    ]))
}

fn nano_ports() -> Vec<PortDefinition> {
    derive_ports_from_net_names(&strings(&[
        "+5V", "3V3", "GND", "D2", "D10_SS", "D11_MOSI", "D12_MISO", "D13_SCK", "A4_SDA", "A5_SCL",
    ]))
}

fn same_endpoint(left: &AttachmentEndpoint, right: &AttachmentEndpoint) -> bool {
    left.instance_id == right.instance_id && left.port == right.port
}

#[test]
fn default_editor_starts_with_main_controller_model() {
    let editor = BoardEditorState::new(mega_ports());
    assert_eq!(editor.bundle.primary.id, PRIMARY_MEMBER_ID);
    assert_eq!(editor.bundle.primary.source.kind, DefinitionSourceKind::BuiltinBoardModel);
    assert_eq!(
        editor.bundle.primary.source.builtin_name.as_deref(),
        Some("arduino_mega_2560_rev3")
    );
    assert_eq!(editor.bundle.primary.embedded_host_board, Some(HostBoard::Mega2560Rev3));
    assert!(!editor.bundle.primary.ports.is_empty());
    assert_eq!(editor.selected_member_id, PRIMARY_MEMBER_ID);
}

#[test]
fn toggling_export_adds_and_removes_connectable_pin() {
    let mut editor = BoardEditorState::new(mega_ports());
    let endpoint = AttachmentEndpoint::primary("A4_SDA");
    editor.toggle_export_for_endpoint(endpoint.clone());
    assert_eq!(editor.bundle.exports.len(), 1);
    assert_eq!(editor.bundle.exports[0].name, "A4_SDA");
    assert!(same_endpoint(&editor.bundle.exports[0].source, &endpoint));
    assert_eq!(editor.notice, "Added connectable pin A4_SDA (Primary:A4_SDA)");

    editor.toggle_export_for_endpoint(AttachmentEndpoint::primary("A4_SDA"));
    assert!(editor.bundle.exports.is_empty());
    assert_eq!(editor.notice, "Removed connectable pin A4_SDA (Primary:A4_SDA)");
}

#[test]
fn exports_of_different_pins_get_distinct_names() {
    let mut editor = BoardEditorState::new(mega_ports());
    editor.toggle_export_for_endpoint(AttachmentEndpoint::child("module_1", "SDA"));
    editor.toggle_export_for_endpoint(AttachmentEndpoint::primary("module_1_SDA"));
    let names: Vec<&str> = editor.bundle.exports.iter().map(|e| e.name.as_str()).collect();
    assert_eq!(names, vec!["module_1_SDA", "module_1_SDA_2"]);
}

#[test]
fn adding_children_numbers_them_and_selects_the_new_one() {
    let mut editor = BoardEditorState::new(mega_ports());
    let models = strings(&["arduino_mega_2560_rev3", "gy_sht31_d", "bme280_breakout"]);
    let nets = strings(&["VCC", "GND", "SCL", "SDA", "GND"]);
    editor.add_child_member(
        AssemblyMemberKind::Module,
        &models,
        Some(&nets),
        Some("gy_sht31_d_behavior"),
    );
    let child = &editor.bundle.children[0];
    assert_eq!(child.id, "module_1");
    assert_eq!(child.name, "module_1");
    assert_eq!(child.label.as_deref(), Some("Module"));
    assert_eq!(child.source.builtin_name.as_deref(), Some("gy_sht31_d"));
    let port_names: Vec<&str> = child.ports.iter().map(|p| p.name.as_str()).collect();
    assert_eq!(port_names, vec!["VCC", "GND", "SCL", "SDA"]);
    let behavior = child.behavior.as_ref().expect("behavior");
    assert_eq!(behavior.kind, DefinitionReferenceKind::BehaviorDefinition);
    assert_eq!(behavior.builtin_name.as_deref(), Some("gy_sht31_d_behavior"));
    assert_eq!(editor.selected_member_id, "module_1");
    assert_eq!(editor.notice, "Added module_1 to the assembly.");

    editor.add_child_member(AssemblyMemberKind::Board, &models, None, None);
    assert_eq!(editor.bundle.children[1].id, "board_1");
    assert!(editor.bundle.children[1].ports.is_empty());
    assert!(editor.bundle.children[1].behavior.is_none());
}

#[test]
fn wires_are_added_once_and_deleted_by_selection() {
    let mut editor = BoardEditorState::new(mega_ports());
    let from = AttachmentEndpoint::primary("D22");
    let to = AttachmentEndpoint::child("module_1", "SDA");

    editor.add_attachment_if_new(from.clone(), from.clone());
    assert!(editor.bundle.attachments.is_empty());

    editor.add_attachment_if_new(from.clone(), to.clone());
    assert_eq!(editor.bundle.attachments.len(), 1);
    assert_eq!(editor.selected_attachment_index, Some(0));
    assert_eq!(editor.notice, "Connected Primary:D22 -> module_1:SDA.");

    editor.add_attachment_if_new(to.clone(), from.clone());
    assert_eq!(editor.bundle.attachments.len(), 1);
    assert_eq!(editor.notice, "That wire already exists.");
    assert!(editor.attachment_exists(&to, &from));

    editor.delete_selected_attachment();
    assert!(editor.bundle.attachments.is_empty());
    assert_eq!(editor.selected_attachment_index, None);
    assert_eq!(editor.notice, "Deleted wire Primary:D22 -> module_1:SDA.");
}

#[test]
fn removing_a_child_drops_its_wires_and_exports() {
    let mut editor = BoardEditorState::new(mega_ports());
    let models = strings(&["gy_sht31_d"]);
    editor.add_child_member(AssemblyMemberKind::Module, &models, None, None);
    editor.add_child_member(AssemblyMemberKind::Module, &models, None, None);
    editor.add_attachment_if_new(
        AttachmentEndpoint::primary("D22"),
        AttachmentEndpoint::child("module_1", "SDA"),
    );
    editor.add_attachment_if_new(
        AttachmentEndpoint::primary("D23"),
        AttachmentEndpoint::child("module_2", "SDA"),
    );
    editor.toggle_export_for_endpoint(AttachmentEndpoint::child("module_2", "SCL"));
    editor.collapsed_member_ids = strings(&["module_2", "module_1"]);

    editor.selected_member_id = "module_2".to_string();
    editor.remove_selected_child();
    assert_eq!(editor.bundle.children.len(), 1);
    assert_eq!(editor.bundle.children[0].id, "module_1");
    assert_eq!(editor.bundle.attachments.len(), 1);
    assert!(editor.bundle.exports.is_empty());
    assert_eq!(editor.collapsed_member_ids, strings(&["module_1"]));
    assert_eq!(editor.selected_member_id, PRIMARY_MEMBER_ID);
    assert_eq!(editor.notice, "Removed module_2 and its wiring.");

    editor.remove_selected_child();
    assert_eq!(editor.bundle.children.len(), 1);
}

#[test]
fn a_missing_selection_falls_back_to_the_primary() {
    let mut editor = BoardEditorState::new(mega_ports());
    editor.selected_member_id = "module_9".to_string();
    editor.preview_member_id = Some("module_9".to_string());
    editor.handle_missing_selected_member("module_9");
    assert_eq!(editor.selected_member_id, PRIMARY_MEMBER_ID);
    assert_eq!(editor.preview_member_id, None);
    assert_eq!(editor.notice, "Selected module module_9 is no longer available.");
}

#[test]
fn finding_members_by_id() {
    let mut editor = BoardEditorState::new(mega_ports());
    editor.add_child_member(AssemblyMemberKind::Module, &strings(&["gy_sht31_d"]), None, None);
    assert_eq!(editor.find_member(PRIMARY_MEMBER_ID).map(|m| m.name.as_str()), Some("controller"));
    assert_eq!(editor.find_member("module_1").map(|m| m.id.as_str()), Some("module_1"));
    assert!(editor.find_member("module_2").is_none());
}

#[test]
fn switching_the_primary_controller_replaces_its_model() {
    let mut editor = BoardEditorState::new(mega_ports());
    assert!(!editor.apply_primary_controller(HostBoard::Mega2560Rev3, nano_ports()));
    assert!(editor.apply_primary_controller(HostBoard::NanoV3, nano_ports()));
    assert_eq!(editor.bundle.primary.embedded_host_board, Some(HostBoard::NanoV3));
    assert_eq!(editor.bundle.primary.source.builtin_name.as_deref(), Some("arduino_nano_v3"));
    assert_eq!(editor.bundle.primary.name, "nano");
    assert_eq!(editor.bundle.primary.label.as_deref(), Some("Arduino Nano (ATmega328P)"));
}

#[test]
fn import_wiring_matches_numeric_net_names_to_nano_header_ports() {
    let mut editor = BoardEditorState::new(mega_ports());
    editor.apply_primary_controller(HostBoard::NanoV3, nano_ports());
    editor.add_child_member(AssemblyMemberKind::Module, &strings(&["gy_sht31_d"]), None, None);
    let child_id = editor.bundle.children[0].id.clone();
    editor.bundle.children[0].ports = vec![
        PortDefinition::new("/10", PortClass::Digital, PortDirection::Bidirectional),
        PortDefinition::new("/13", PortClass::Digital, PortDirection::Bidirectional),
        PortDefinition::new("GND", PortClass::Power, PortDirection::Passive),
        PortDefinition::new("+5V", PortClass::Power, PortDirection::Passive),
    ];

    let imported = editor.import_wiring_from_ports();
    assert_eq!(imported, 4);
    assert!(editor.attachment_exists(
        &AttachmentEndpoint::primary("D10_SS"),
        &AttachmentEndpoint::child(&child_id, "/10"),
    ));
    assert!(editor.attachment_exists(
        &AttachmentEndpoint::primary("D13_SCK"),
        &AttachmentEndpoint::child(&child_id, "/13"),
    ));
    assert_eq!(editor.selected_attachment_index, Some(3));
    assert_eq!(
        editor.bundle.attachments[0].note.as_deref(),
        Some("Imported from controller/module port matching")
    );

    assert_eq!(editor.import_wiring_from_ports(), 0);
    assert_eq!(editor.bundle.attachments.len(), 4);
}

#[test]
fn import_wiring_connects_nano_i2c_pins_to_a_sensor() {
    let mut editor = BoardEditorState::new(mega_ports());
    editor.apply_primary_controller(HostBoard::NanoV3, nano_ports());
    let sensor_nets = strings(&["GND", "SCL", "SDA", "VCC"]);
    editor.add_child_member(
        AssemblyMemberKind::Module,
        &strings(&["gy_sht31_d"]),
        Some(&sensor_nets),
        None,
    );
    let child_id = editor.bundle.children[0].id.clone();

    let imported = editor.import_wiring_from_ports();
    assert_eq!(imported, 4);
    assert!(editor.attachment_exists(
        &AttachmentEndpoint::primary("A4_SDA"),
        &AttachmentEndpoint::child(&child_id, "SDA"),
    ));
    assert!(editor.attachment_exists(
        &AttachmentEndpoint::primary("A5_SCL"),
        &AttachmentEndpoint::child(&child_id, "SCL"),
    ));
    assert!(editor.attachment_exists(
        &AttachmentEndpoint::primary("+5V"),
        &AttachmentEndpoint::child(&child_id, "VCC"),
    ));
    assert!(editor.attachment_exists(
        &AttachmentEndpoint::primary("GND"),
        &AttachmentEndpoint::child(&child_id, "GND"),
    ));
}

fn pcb_with_nets(nets: &[&str]) -> LoadedPcb {
    LoadedPcb {
        components: Vec::new(),
        net_names: strings(nets),
        track_nets: Vec::new(),
        pad_nets: Vec::new(),
        via_nets: Vec::new(),
    }
}

#[test]
fn loading_a_member_pcb_takes_its_ports_and_names_a_blank_member() {
    let mut editor = BoardEditorState::new(mega_ports());
    editor.add_child_member(
        AssemblyMemberKind::Module,
        &strings(&["gy_sht31_d"]),
        Some(&strings(&["VCC", "GND"])),
        Some("gy_sht31_d_behavior"),
    );
    editor.bundle.children[0].name = "  ".to_string();

    let kept = editor.load_member_pcb(
        "module_1",
        "boards/sensor.kicad_pcb",
        Ok(pcb_with_nets(&["SDA", "SCL", "GND"])),
    );
    assert_eq!(kept, Some(true));
    let child = &editor.bundle.children[0];
    assert_eq!(child.source.kind, DefinitionSourceKind::KicadPcb);
    assert_eq!(child.source.path.as_deref(), Some("boards/sensor.kicad_pcb"));
    assert_eq!(child.source.builtin_name, None);
    assert_eq!(child.name, "sensor");
    let port_names: Vec<&str> = child.ports.iter().map(|p| p.name.as_str()).collect();
    assert_eq!(port_names, vec!["SDA", "SCL", "GND"]);
    assert!(child.behavior.is_none());
    assert_eq!(editor.notice, "Loaded PCB boards/sensor.kicad_pcb for module_1.");
}

#[test]
fn member_pcb_load_failures_and_empty_paths_only_change_the_notice() {
    let mut editor = BoardEditorState::new(mega_ports());
    let before = editor.bundle.primary.ports.len();
    assert_eq!(editor.load_member_pcb(PRIMARY_MEMBER_ID, "", Ok(pcb_with_nets(&["X"]))), None);
    assert_eq!(editor.notice, "Select a PCB file first.");
    let kept = editor.load_member_pcb(PRIMARY_MEMBER_ID, "a.kicad_pcb", Err("no such file".to_string()));
    assert_eq!(kept, Some(false));
    assert_eq!(editor.notice, "PCB load failed: no such file");
    assert_eq!(editor.bundle.primary.ports.len(), before);
    assert_eq!(editor.bundle.primary.source.kind, DefinitionSourceKind::BuiltinBoardModel);
}

#[test]
fn opening_a_board_file_replaces_the_bundle_and_lists_pcbs_to_load() {
    let mut editor = BoardEditorState::new(mega_ports());
    let mut other = BoardEditorState::new(mega_ports());
    other.add_child_member(AssemblyMemberKind::Module, &strings(&["gy_sht31_d"]), None, None);
    other.add_child_member(AssemblyMemberKind::Board, &strings(&["gy_sht31_d"]), None, None);
    other.load_member_pcb("board_1", "pcbs/io.kicad_pcb", Ok(pcb_with_nets(&["D1"])));
    let bundle = other.bundle.clone();

    editor.expose_pin_mode = true;
    let paths = editor.load_bundle_file("saved/rig.avrsim.json", Ok(bundle));
    assert_eq!(paths, vec![("board_1".to_string(), "pcbs/io.kicad_pcb".to_string())]);
    assert_eq!(editor.bundle.children.len(), 2);
    assert_eq!(editor.bundle_path, "saved/rig.avrsim.json");
    assert_eq!(editor.selected_member_id, PRIMARY_MEMBER_ID);
    assert!(!editor.expose_pin_mode);
    assert_eq!(editor.notice, "Loaded board assembly with 2 child member(s).");
}

#[test]
fn opening_an_invalid_or_unreadable_board_file_keeps_the_bundle() {
    let mut editor = BoardEditorState::new(mega_ports());
    let mut invalid = editor.bundle.clone();
    invalid.name = " ".to_string();
    let paths = editor.load_bundle_file("bad.json", Ok(invalid));
    assert!(paths.is_empty());
    assert_eq!(editor.notice, "Board file is invalid: assembly bundle name must not be empty");
    assert_eq!(editor.bundle.name, "Untitled Board Assembly");

    let paths = editor.load_bundle_file("missing.json", Err("file not found".to_string()));
    assert!(paths.is_empty());
    assert_eq!(editor.notice, "Open failed: file not found");
    assert_eq!(editor.bundle_path, "");
}

#[test]
fn canvas_clicks_start_finish_and_cancel_wires() {
    let mut editor = BoardEditorState::new(mega_ports());
    let from = AttachmentEndpoint::primary("D22");
    let to = AttachmentEndpoint::child("module_1", "SDA");

    editor.apply_canvas_event(CanvasEvent::PortClicked(from.clone()));
    assert!(editor.wire_drag_from.is_some());
    editor.apply_canvas_event(CanvasEvent::PortClicked(from.clone()));
    assert!(editor.wire_drag_from.is_none());
    assert!(editor.bundle.attachments.is_empty());

    editor.apply_canvas_event(CanvasEvent::PortClicked(from.clone()));
    editor.apply_canvas_event(CanvasEvent::PortClicked(to.clone()));
    assert!(editor.wire_drag_from.is_none());
    assert_eq!(editor.bundle.attachments.len(), 1);
    assert_eq!(editor.selected_attachment_index, Some(0));

    editor.apply_canvas_event(CanvasEvent::PortDragStarted(to.clone()));
    editor.apply_canvas_event(CanvasEvent::PointerReleased(Some(from.clone())));
    assert!(editor.wire_drag_from.is_none());
    assert_eq!(editor.bundle.attachments.len(), 1);
    assert_eq!(editor.notice, "That wire already exists.");

    editor.selected_member_id = "module_1".to_string();
    editor.apply_canvas_event(CanvasEvent::EmptyCanvasClicked);
    assert_eq!(editor.selected_attachment_index, None);
    assert_eq!(editor.selected_member_id, PRIMARY_MEMBER_ID);
}

#[test]
fn canvas_clicks_toggle_exports_while_pins_are_exposed() {
    let mut editor = BoardEditorState::new(mega_ports());
    editor.expose_pin_mode = true;
    editor.apply_canvas_event(CanvasEvent::PortClicked(AttachmentEndpoint::primary("A4_SDA")));
    assert_eq!(editor.bundle.exports.len(), 1);
    assert!(editor.wire_drag_from.is_none());
    editor.apply_canvas_event(CanvasEvent::PortDragStarted(AttachmentEndpoint::primary("A4_SDA")));
    assert!(editor.wire_drag_from.is_none());
}

#[test]
fn collapsing_a_member_toggles_and_announces_it() {
    let mut editor = BoardEditorState::new(mega_ports());
    let primary = editor.bundle.primary.clone();
    editor.toggle_member_collapsed(&primary);
    assert_eq!(editor.collapsed_member_ids, vec![PRIMARY_MEMBER_ID.to_string()]);
    assert_eq!(editor.notice, "controller collapsed.");
    editor.toggle_member_collapsed(&primary);
    assert!(editor.collapsed_member_ids.is_empty());
    assert_eq!(editor.notice, "controller expanded.");
}

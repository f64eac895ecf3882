use avrsim::project::assembly_bundle::{AssemblyBundle, AssemblyMember, AssemblyMemberKind};
use avrsim::project::definitions::{
    DefinitionReference, DefinitionReferenceKind, DefinitionSource, PortClass, PortDefinition,
    PortDirection,
};
use avrsim::project::document::AvrSimDocument;
use avrsim::project::paths::{
    absolutize_lexically, diff_paths, document_base_dir, join_path, make_path_relative,
    normalize_lexical, prepare_document_for_save, resolve_document_after_load,
    resolve_relative_path, with_file_name,
};
use avrsim::project::shared::{FirmwareSource, FirmwareSourceKind, HostBoard, PcbSource};
use avrsim::project::simulation_project::SimulationProject;

fn debug<T: std::fmt::Debug>(value: &T) -> String {
    format!("{:?}", value)
}

#[test]
fn simulation_project_paths_are_saved_relative_and_resolved_on_load() {
    let root = "/tmp/avrsim-paths/workspace";
    let document_path = format!("{root}/docs/controller.avrsim.json");

    let project = SimulationProject {
        format_version: "0.3.0".to_string(),
        name: "Controller".to_string(),
        description: None,
        host_board: HostBoard::Mega2560Rev3,
        firmware: FirmwareSource {
            kind: FirmwareSourceKind::Ino,
            path: format!("{root}/firmware/dewpoint_controller.ino"),
            compiled_hex_path: Some(format!("{root}/build/dewpoint_controller.ino.hex")),
        },
        pcb: PcbSource {
            path: format!(
                "{root}/pcb/mega_r3_sidecar_controller_rev_a/mega_r3_sidecar_controller_rev_a.kicad_pcb"
            ),
            board_name_hint: Some("mega_r3_sidecar_controller_rev_a".to_string()),
        },
        root_assembly: Some(DefinitionReference::file(
            DefinitionReferenceKind::AssemblyBundle,
            &format!("{root}/assemblies/controller.board.avrsim.json"),
        )),
        module_overlays: Vec::new(),
        bindings: Vec::new(),
        probes: Vec::new(),
        stimuli: Vec::new(),
    };

    let mut document = AvrSimDocument::SimulationProject(project.clone());
    prepare_document_for_save(&mut document, &document_path, None);
    let saved = debug(&document);

    assert!(saved.contains("../firmware/dewpoint_controller.ino"));
    assert!(saved.contains("../build/dewpoint_controller.ino.hex"));
    assert!(saved.contains(
        "../pcb/mega_r3_sidecar_controller_rev_a/mega_r3_sidecar_controller_rev_a.kicad_pcb"
    ));
    assert!(saved.contains("../assemblies/controller.board.avrsim.json"));
    assert!(!saved.contains(root));

    resolve_document_after_load(&mut document, &document_path, None);
    assert_eq!(debug(&document), debug(&AvrSimDocument::SimulationProject(project)));
}

#[test]
fn assembly_bundle_paths_are_saved_relative_and_resolved_on_load() {
    let root = "/tmp/avrsim-paths/workspace";
    let document_path = format!("{root}/docs/controller_stack.board.avrsim.json");

    let mut primary = AssemblyMember::new(
        "primary",
        AssemblyMemberKind::Board,
        "controller",
        DefinitionSource::kicad_pcb(&format!("{root}/pcb/controller.kicad_pcb")),
    );
    primary.embedded_host_board = Some(HostBoard::Mega2560Rev3);
    primary.firmware = Some(FirmwareSource {
        kind: FirmwareSourceKind::Ino,
        path: format!("{root}/firmware/controller.ino"),
        compiled_hex_path: Some(format!("{root}/build/controller.ino.hex")),
    });
    primary.ports = vec![PortDefinition::new("CANH", PortClass::Bus, PortDirection::Bidirectional)];

    let mut child = AssemblyMember::new(
        "sensor_1",
        AssemblyMemberKind::Module,
        "sensor",
        DefinitionSource::kicad_pcb(&format!("{root}/pcb/sensor.kicad_pcb")),
    );
    child.behavior = Some(DefinitionReference::file(
        DefinitionReferenceKind::BehaviorDefinition,
        &format!("{root}/behaviors/sensor.behavior.avrsim.json"),
    ));

    let mut bundle = AssemblyBundle::new("Controller Stack", primary);
    bundle.children.push(child);

    let mut document = AvrSimDocument::AssemblyBundle(bundle.clone());
    prepare_document_for_save(&mut document, &document_path, None);
    let saved = debug(&document);

    assert!(saved.contains("../pcb/controller.kicad_pcb"));
    assert!(saved.contains("../firmware/controller.ino"));
    assert!(saved.contains("../build/controller.ino.hex"));
    assert!(saved.contains("../pcb/sensor.kicad_pcb"));
    assert!(saved.contains("../behaviors/sensor.behavior.avrsim.json"));
    assert!(!saved.contains(root));

    resolve_document_after_load(&mut document, &document_path, None);
    assert_eq!(debug(&document), debug(&AvrSimDocument::AssemblyBundle(bundle)));
}

#[test]
fn relative_paths_are_resolved_without_touching_builtin_references() {
    let document_path = "/tmp/project/docs/controller.board.avrsim.json";
    let bundle = AssemblyBundle::new(
        "Controller Stack",
        AssemblyMember::new(
            "primary",
            AssemblyMemberKind::Board,
            "controller",
            DefinitionSource::builtin_board_model("arduino_mega_2560_rev3"),
        ),
    );
    let mut document = AvrSimDocument::AssemblyBundle(bundle.clone());

    resolve_document_after_load(&mut document, document_path, None);

    assert_eq!(debug(&document), debug(&AvrSimDocument::AssemblyBundle(bundle)));
}

#[test]
fn relative_documents_are_placed_under_the_working_directory() {
    assert_eq!(document_base_dir("docs/board.avrsim.json", Some("/home/me")), "/home/me/docs");
    assert_eq!(document_base_dir("/srv/docs/board.avrsim.json", Some("/home/me")), "/srv/docs");
    assert_eq!(document_base_dir("board.avrsim.json", Some("/home/me")), "/home/me");
}

#[test]
fn lexical_normalization_folds_dots_and_parents() {
    assert_eq!(normalize_lexical("/a/./b/../c/"), "/a/c");
    assert_eq!(normalize_lexical("/../x"), "/x");
    assert_eq!(normalize_lexical("a/../../b"), "../b");
    assert_eq!(join_path("/a/b", "c.txt"), "/a/b/c.txt");
    assert_eq!(join_path("/a/b", "/abs"), "/abs");
    assert_eq!(absolutize_lexically("x/y", Some("/base")), "/base/x/y");
}

#[test]
fn diff_paths_walks_up_to_the_common_directory() {
    assert_eq!(diff_paths("/w/pcb/board.kicad_pcb", "/w/docs"), Some("../pcb/board.kicad_pcb".to_string()));
    assert_eq!(diff_paths("/w/docs/a.hex", "/w/docs"), Some("a.hex".to_string()));
    assert_eq!(diff_paths("relative/a.hex", "/w/docs"), None);
}

#[test]
fn stored_paths_round_trip_through_save_and_load() {
    let mut path = "/w/pcb/board.kicad_pcb".to_string();
    make_path_relative(&mut path, "/w/docs");
    assert_eq!(path, "../pcb/board.kicad_pcb");
    resolve_relative_path(&mut path, "/w/docs");
    assert_eq!(path, "/w/pcb/board.kicad_pcb");

    let mut empty = String::new();
    make_path_relative(&mut empty, "/w/docs");
    assert_eq!(empty, "");
    resolve_relative_path(&mut empty, "/w/docs");
    assert_eq!(empty, "");
}

#[test]
fn file_names_are_replaced_in_place() {
    assert_eq!(with_file_name("/tmp/a.kicad_pcb", "a.avrsim.json"), "/tmp/a.avrsim.json");
    assert_eq!(with_file_name("/tmp/", "x.json"), "/x.json");
    assert_eq!(with_file_name("name", "other"), "other");
}

#[test]
fn board_definition_paths_round_trip_through_save_and_load() {
    let root = "/tmp/avrsim-roundtrip/workspace";
    let document_path = format!("{root}/docs/board.avrsim.json");
    let mut definition = avrsim::project::definitions::BoardDefinition::new(
        "carrier",
        DefinitionSource::kicad_pcb(&format!("{root}/pcb/board.kicad_pcb")),
    );
    definition.default_firmware = Some(FirmwareSource {
        kind: FirmwareSourceKind::Hex,
        path: format!("{root}/firmware/carrier.hex"),
        compiled_hex_path: Some(format!("{root}/build/carrier.hex")),
    });
    let original = AvrSimDocument::BoardDefinition(definition);
    let mut document = original.clone();

    prepare_document_for_save(&mut document, &document_path, None);
    let saved = debug(&document);
    assert!(saved.contains("../pcb/board.kicad_pcb"));
    assert!(saved.contains("../firmware/carrier.hex"));
    assert!(saved.contains("../build/carrier.hex"));
    assert!(!saved.contains(root));

    resolve_document_after_load(&mut document, &document_path, None);
    assert_eq!(debug(&document), debug(&original));
}

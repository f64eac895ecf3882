use avrsim::gui::board_editor::derive_ports_from_loaded_pcb;
use avrsim::gui::pcb_view::{net_tooltip_summary, LoadedPcb, NetElementCounts, PcbComponent, PcbPad};
use avrsim::project::definitions::{PortClass, PortDirection};
use avrsim::project::shared::{BindingMode, ModuleOverlay, ModuleSignalBinding, SignalBinding};

fn strings(values: &[&str]) -> Vec<String> {
    values.iter().map(|value| value.to_string()).collect()
}

fn pad(number: &str, net: Option<&str>) -> PcbPad {
    PcbPad { number: number.to_string(), net_name: net.map(|n| n.to_string()) }
}

fn component(reference: &str, kind: &str, pads: Vec<PcbPad>) -> PcbComponent {
    PcbComponent { reference: reference.to_string(), kind: kind.to_string(), pads }
}

fn nets(values: &[Option<&str>]) -> Vec<Option<String>> {
    values.iter().map(|value| value.map(|n| n.to_string())).collect()
}

fn board(components: Vec<PcbComponent>, net_names: &[&str]) -> LoadedPcb {
    LoadedPcb {
        components,
        net_names: strings(net_names),
        track_nets: nets(&[Some("CAN_H"), Some("GND"), Some("CAN_H"), None]),
        pad_nets: nets(&[Some("CAN_H"), Some("CAN_L")]),
        via_nets: nets(&[Some("GND")]),
    }
}

#[test]
fn derived_ports_prefer_connector_pads_with_sorted_aliases() {
    let loaded = board(
        vec![
            component("J2", "connector", vec![pad("1", Some("GND")), pad("2", Some("CAN_H"))]),
            component("U1", "ic", vec![pad("5", Some("CAN_L"))]),
            component("J1", "connector", vec![pad("3", Some("GND")), pad("4", None)]),
        ],
        &["CAN_H", "CAN_L", "GND"],
    );
    let ports = derive_ports_from_loaded_pcb(&loaded);
    let names: Vec<&str> = ports.iter().map(|p| p.name.as_str()).collect();
    assert_eq!(names, vec!["CAN_H", "GND"]);
    assert_eq!(ports[0].aliases, strings(&["J2:2"]));
    assert_eq!(ports[1].aliases, strings(&["J1:3", "J2:1"]));
    assert_eq!(ports[1].class, PortClass::Power);
    assert_eq!(ports[1].direction, PortDirection::Passive);
}

#[test]
fn boards_without_connectors_derive_ports_from_net_names() {
    let loaded = board(vec![component("U1", "ic", vec![pad("1", Some("SDA"))])], &["SDA", "SCL", " "]);
    let ports = derive_ports_from_loaded_pcb(&loaded);
    let names: Vec<&str> = ports.iter().map(|p| p.name.as_str()).collect();
    assert_eq!(names, vec!["SDA", "SCL"]);
    assert!(ports.iter().all(|p| p.aliases.is_empty()));
}

#[test]
fn net_tooltip_reports_bound_signals_and_geometry_counts() {
    let loaded = board(Vec::new(), &["CAN_H", "CAN_L", "GND"]);
    let bindings = vec![
        SignalBinding {
            board_signal: "D10".to_string(),
            pcb_net: "CAN_H".to_string(),
            mode: BindingMode::Bus,
            note: None,
        },
        SignalBinding {
            board_signal: "D10".to_string(),
            pcb_net: "CAN_H".to_string(),
            mode: BindingMode::Bus,
            note: None,
        },
    ];
    let overlays = vec![ModuleOverlay {
        name: "module_1".to_string(),
        model: "mcp2515_tja1050_can_module".to_string(),
        bindings: vec![ModuleSignalBinding {
            module_signal: "CANH".to_string(),
            pcb_net: "CAN_H".to_string(),
            mode: BindingMode::Bus,
            note: None,
        }],
    }];
    let summary = net_tooltip_summary(&loaded, "CAN_H", &bindings, &overlays, &strings(&["CAN_H"]));

    assert_eq!(summary.net_name, "CAN_H");
    assert_eq!(summary.controller_signals, strings(&["D10"]));
    assert_eq!(summary.module_signals, strings(&["module_1:CANH"]));
    assert_eq!(summary.counts, NetElementCounts { tracks: 2, pads: 1, vias: 0 });
    assert!(summary.is_active);
    assert!(summary.is_controller_bound);
    assert!(summary.is_module_connected);

    let quiet = net_tooltip_summary(&loaded, "GND", &bindings, &overlays, &[]);
    assert_eq!(quiet.counts, NetElementCounts { tracks: 1, pads: 0, vias: 1 });
    assert!(!quiet.is_active && !quiet.is_controller_bound && !quiet.is_module_connected);
}

#[test]
fn net_tooltip_summary_reports_bound_signals_and_geometry_counts() {
    let loaded = board(Vec::new(), &["CAN_H", "CAN_L", "GND", "+3V3"]);

    let summary = net_tooltip_summary(
        &loaded,
        "CAN_H",
        &[SignalBinding {
            board_signal: "D10".to_string(),
            pcb_net: "CAN_H".to_string(),
            mode: BindingMode::Bus,
            note: None,
        }],
        &[ModuleOverlay {
            name: "module_1".to_string(),
            model: "mcp2515_tja1050_can_module".to_string(),
            bindings: vec![ModuleSignalBinding {
                module_signal: "CANH".to_string(),
                pcb_net: "CAN_H".to_string(),
                mode: BindingMode::Bus,
                note: None,
            }],
        }],
        &["CAN_H".to_string()],
    );

    assert_eq!(summary.net_name, "CAN_H");
    assert_eq!(summary.controller_signals, vec!["D10".to_string()]);
    assert_eq!(summary.module_signals, vec!["module_1:CANH".to_string()]);
    assert!(summary.is_active);
    assert!(summary.is_controller_bound);
    assert!(summary.is_module_connected);
    assert!(summary.counts.tracks > 0 || summary.counts.pads > 0 || summary.counts.vias > 0);
}

use avrsim::gui::simulation::{WorkerAction, WorkerCommand};
use avrsim::gui::simulation::{
    capture_runtime_snapshot, mega_bus_status_line, nano_bus_status_line, should_publish,
    timer_serial_status_line, CoreState, DecodedInstruction, OperandSet, RunPacingAnchor,
    SharedSimulationState, SimulationSnapshot, SimulatorStatus, WorkerState,
};
use avrsim::mcu::common::{BoardPin, BoardPinLevel};
use avrsim::project::shared::HostBoard;

fn no_operands() -> OperandSet {
    OperandSet {
        d: None,
        r: None,
        a: None,
        b: None,
        s: None,
        k: None,
        q: None,
        pointer: None,
        mode: None,
    }
}

#[test]
fn status_lines_spell_the_bus_state() {
    assert_eq!(
        timer_serial_status_line(true, 36, false, -5, 2),
        "Timer0: pending=true rem=36 | USART0: tx_busy=false tx_cycles=-5 rx_queue=2"
    );
    assert_eq!(
        nano_bus_status_line(false, true, false, Some(0x44), true),
        "SPI: active=false | TWI: active=true irq=false addr=0x44 mode=read"
    );
    assert_eq!(
        nano_bus_status_line(true, false, true, Some(0x0A), false),
        "SPI: active=true | TWI: active=false irq=true addr=0x0A mode=write"
    );
    assert_eq!(
        nano_bus_status_line(false, false, false, None, false),
        "SPI: active=false | TWI: active=false irq=false addr=-- mode=write"
    );
    assert_eq!(
        mega_bus_status_line(true, 1700, false, true, 4096),
        "ADC: pending=true rem=1700 | SPI CAN: false | SPI RTD: true | EEPROM: 4096 bytes"
    );
}

#[test]
fn runtime_snapshot_carries_core_and_console_state() {
    let mut registers = vec![0u8; 40];
    registers[0] = 7;
    registers[31] = 9;
    let core = CoreState {
        registers,
        pc: 0x10,
        sp: 0x08FF,
        cycles: 1234,
        sreg: 0x80,
        next_instruction: Ok(DecodedInstruction {
            address: 0x20,
            opcode: 0x0000,
            next_word: None,
            mnemonic: "Nop".to_string(),
            word_length: 1,
            operands: no_operands(),
        }),
    };
    let snapshot = capture_runtime_snapshot(
        HostBoard::NanoV3,
        Some("blink.ino".to_string()),
        Some("blink.hex".to_string()),
        SimulatorStatus::Running,
        "Running".to_string(),
        "compile ok".to_string(),
        core,
        b"hi\r\n",
        9600,
        3,
        vec!["line".to_string()],
        1200,
        vec![BoardPinLevel { pin: BoardPin::Digital(13), level: 1 }],
        Vec::new(),
    );
    assert_eq!(snapshot.board, HostBoard::NanoV3);
    assert_eq!(snapshot.registers.len(), 32);
    assert_eq!(snapshot.registers[0], 7);
    assert_eq!(snapshot.registers[31], 9);
    assert_eq!(snapshot.serial_text, "hi\n");
    assert_eq!(snapshot.serial_bytes, 4);
    assert_eq!(snapshot.next_instruction, "0x000020: Nop (opcode=0x0000)");
    assert_eq!(snapshot.pc, 0x10);
    assert_eq!(snapshot.sp, 0x08FF);
    assert_eq!(snapshot.sreg, 0x80);
    assert_eq!(snapshot.synced_cycles, 1200);
    assert_eq!(snapshot.extra_lines, vec!["line".to_string()]);

    let broken = CoreState {
        registers: vec![0u8; 32],
        pc: 0,
        sp: 0,
        cycles: 0,
        sreg: 0,
        next_instruction: Err("out of flash".to_string()),
    };
    let snapshot = capture_runtime_snapshot(
        HostBoard::Mega2560Rev3,
        None,
        None,
        SimulatorStatus::Error,
        String::new(),
        String::new(),
        broken,
        &[],
        0,
        0,
        Vec::new(),
        0,
        Vec::new(),
        Vec::new(),
    );
    assert_eq!(snapshot.next_instruction, "<decode error: out of flash>");
}

#[test]
fn snapshots_publish_on_change_or_after_the_interval() {
    assert!(should_publish(true, 0));
    assert!(!should_publish(false, 32));
    assert!(should_publish(false, 33));

    let mut shared = SharedSimulationState::default();
    let mut snapshot = SimulationSnapshot::default();
    snapshot.status = SimulatorStatus::Running;
    shared.publish(snapshot);
    assert_eq!(shared.sequence, 2);
    assert_eq!(shared.snapshot.status, SimulatorStatus::Running);
    shared.sequence = u64::MAX;
    shared.publish(SimulationSnapshot::default());
    assert_eq!(shared.sequence, 0);
}

#[test]
fn pacing_sleeps_until_wall_time_catches_up() {
    let mut state = WorkerState::new();
    state.status = SimulatorStatus::Running;

    assert_eq!(state.pace_running_runtime(Some((1_000, 16_000_000)), 5_000), 0);
    assert_eq!(
        state.run_pacing_anchor,
        Some(RunPacingAnchor { wall_started_ns: 5_000, synced_cycles_started: 1_000 })
    );

    // 16_000 cycles at 16 MHz take 1 ms; 200 us of wall time have passed.
    assert_eq!(state.pace_running_runtime(Some((17_000, 16_000_000)), 205_000), 800_000);
    // Far behind: the sleep is capped at 8 ms.
    assert_eq!(state.pace_running_runtime(Some((16_001_000, 16_000_000)), 205_000), 8_000_000);
    // Wall time ahead: no sleep.
    assert_eq!(state.pace_running_runtime(Some((17_000, 16_000_000)), 10_000_000), 0);

    state.status = SimulatorStatus::Paused;
    assert_eq!(state.pace_running_runtime(Some((17_000, 16_000_000)), 10_000_000), 0);
    assert_eq!(state.run_pacing_anchor, None);

    state.status = SimulatorStatus::Running;
    state.pace_running_runtime(Some((17_000, 16_000_000)), 1);
    assert!(state.run_pacing_anchor.is_some());
    assert_eq!(state.pace_running_runtime(None, 2), 0);
    assert_eq!(state.run_pacing_anchor, None);
}

#[test]
fn worker_commands_need_firmware_and_reset_reloads_the_last_image() {
    let mut state = WorkerState::new();

    let (action, dirty) = state.handle_command(WorkerCommand::Reset, None);
    assert!(matches!(action, WorkerAction::Nothing));
    assert!(!dirty);
    let (action, dirty) = state.handle_command(WorkerCommand::Run, None);
    assert!(matches!(action, WorkerAction::Nothing));
    assert!(!dirty);
    let (_, dirty) = state.handle_command(WorkerCommand::InjectSerial { payload: Vec::new(), baud: 9600 }, Some((16_000_000, 0)));
    assert!(!dirty);

    state.firmware_path = Some("build/blink.hex".to_string());
    state.status = SimulatorStatus::Paused;
    match state.handle_command(WorkerCommand::Reset, Some((16_000_000, 100))) {
        (WorkerAction::LoadHex { path, board, source_path }, true) => {
            assert_eq!(path, "build/blink.hex");
            assert_eq!(board, HostBoard::Mega2560Rev3);
            assert_eq!(source_path, None);
        }
        _ => panic!("reset should reload the image"),
    }
    let (action, dirty) = state.handle_command(WorkerCommand::Run, Some((16_000_000, 100)));
    assert!(matches!(action, WorkerAction::Nothing));
    assert!(dirty);
    assert_eq!(state.status, SimulatorStatus::Running);
    assert_eq!(state.status_message, "Running firmware");

    let (_, dirty) = state.handle_command(WorkerCommand::InjectSerial { payload: b"hi".to_vec(), baud: 9600 }, Some((16_000_000, 100)));
    assert!(dirty);
    assert_eq!(state.pending_serial.len(), 1);
    assert_eq!(state.status_message, "Queued serial input at 9600 baud");

    let (action, dirty) = state.handle_command(WorkerCommand::Shutdown, Some((16_000_000, 100)));
    assert!(matches!(action, WorkerAction::Stop));
    assert!(dirty);
}

#[test]
fn run_then_shutdown_without_firmware_publishes_the_default_snapshot() {
    let mut state = WorkerState::new();
    let mut shared = SharedSimulationState::default();
    assert_eq!(shared.sequence, 1);

    let (action, dirty) = state.handle_command(WorkerCommand::Run, None);
    assert!(matches!(action, WorkerAction::Nothing));
    assert!(!dirty);
    let (action, _) = state.handle_command(WorkerCommand::Shutdown, None);
    assert!(matches!(action, WorkerAction::Stop));
    shared.publish(state.capture_snapshot());

    let expected = SimulationSnapshot::default();
    let published = &shared.snapshot;
    assert_eq!(shared.sequence, 2);
    assert_eq!(published.status, SimulatorStatus::Idle);
    assert_eq!(published.firmware_path, None);
    assert_eq!(published.board, expected.board);
    assert_eq!(published.source_path, expected.source_path);
    assert_eq!(published.status_message, expected.status_message);
    assert_eq!(published.compile_log, expected.compile_log);
    assert_eq!(published.serial_text, expected.serial_text);
    assert_eq!(published.serial_bytes, expected.serial_bytes);
    assert_eq!(published.serial_configured_baud, expected.serial_configured_baud);
    assert_eq!(published.serial_rx_queued, expected.serial_rx_queued);
    assert_eq!(published.pc, expected.pc);
    assert_eq!(published.sp, expected.sp);
    assert_eq!(published.cycles, expected.cycles);
    assert_eq!(published.synced_cycles, expected.synced_cycles);
    assert_eq!(published.sreg, expected.sreg);
    assert_eq!(published.next_instruction, expected.next_instruction);
    assert_eq!(published.registers, expected.registers);
    assert_eq!(published.extra_lines, expected.extra_lines);
    assert_eq!(published.host_pin_levels, expected.host_pin_levels);
    assert_eq!(published.host_pin_recent_activity, expected.host_pin_recent_activity);
}

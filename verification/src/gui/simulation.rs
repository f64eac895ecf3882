//! Simulator status, the snapshot the window shows, and the text it
//! renders: the serial console and the compile log. Wall-clock pacing is
//! expressed as a whole-seconds/nanoseconds pair.

use vstd::prelude::*;
use crate::gui::arduino::CompileArtifact;
use crate::mcu::common::{BoardPin, BoardPinLevel};
use crate::project::shared::{spec_host_board_fqbn, spec_host_board_label, HostBoard};
use crate::text::{
    chars_of, concat2, decimal, ends_with, push_all, push_str, is_blank, owned, spec_decimal, spec_ends_with,
    spec_is_blank, string_of, views,
};

verus! {

/// How many bytes of serial output the console keeps.
pub const SERIAL_TAIL_BYTES: usize = 65536;

#[derive(Debug, Clone, Copy, PartialEq, Eq, Structural)]
pub enum SimulatorStatus {
    Idle,
    Compiling,
    Ready,
    Running,
    Paused,
    Break,
    Sleep,
    Done,
    Error,
}

pub open spec fn spec_status_label(s: SimulatorStatus) -> Seq<char> {
    match s {
        SimulatorStatus::Idle => "Idle"@,
        SimulatorStatus::Compiling => "Compiling"@,
        SimulatorStatus::Ready => "Ready"@,
        SimulatorStatus::Running => "Running"@,
        SimulatorStatus::Paused => "Paused"@,
        SimulatorStatus::Break => "Break"@,
        SimulatorStatus::Sleep => "Sleep"@,
        SimulatorStatus::Done => "Done"@,
        SimulatorStatus::Error => "Error"@,
    }
}

impl SimulatorStatus {
    pub fn label(self) -> (r: &'static str)
        ensures
            r@ == spec_status_label(self),
    {
        match self {
            SimulatorStatus::Idle => "Idle",
            SimulatorStatus::Compiling => "Compiling",
            SimulatorStatus::Ready => "Ready",
            SimulatorStatus::Running => "Running",
            SimulatorStatus::Paused => "Paused",
            SimulatorStatus::Break => "Break",
            SimulatorStatus::Sleep => "Sleep",
            SimulatorStatus::Done => "Done",
            SimulatorStatus::Error => "Error",
        }
    }
}

/// What the window shows of the simulator.
#[derive(Debug, Clone)]
pub struct SimulationSnapshot {
    pub board: HostBoard,
    pub status: SimulatorStatus,
    pub source_path: Option<String>,
    pub firmware_path: Option<String>,
    pub status_message: String,
    pub compile_log: String,
    pub serial_text: String,
    pub serial_bytes: usize,
    pub serial_configured_baud: u32,
    pub serial_rx_queued: usize,
    pub pc: u32,
    pub sp: u16,
    pub cycles: u64,
    pub synced_cycles: u64,
    pub sreg: u8,
    pub next_instruction: String,
    pub registers: Vec<u8>,
    pub extra_lines: Vec<String>,
    pub host_pin_levels: Vec<BoardPinLevel>,
    pub host_pin_recent_activity: Vec<BoardPinLevel>,
}

impl Default for SimulationSnapshot {
    fn default() -> (r: Self)
        ensures
            r.board == HostBoard::Mega2560Rev3,
            r.status == SimulatorStatus::Idle,
            r.source_path is None,
            r.firmware_path is None,
            r.status_message@ == "Load a .hex file or compile an .ino sketch to begin."@,
            r.compile_log@.len() == 0,
            r.serial_text@.len() == 0,
            r.serial_bytes == 0,
            r.serial_configured_baud == 0,
            r.serial_rx_queued == 0,
            r.pc == 0,
            r.sp == 0,
            r.cycles == 0,
            r.synced_cycles == 0,
            r.sreg == 0,
            r.next_instruction@.len() == 0,
            r.registers@ == Seq::new(32, |i: int| 0u8),
            r.extra_lines@.len() == 0,
            r.host_pin_levels@.len() == 0,
            r.host_pin_recent_activity@.len() == 0,
    {
        let mut registers: Vec<u8> = Vec::new();
        let mut i: usize = 0;
        while i < 32
            invariant
                i <= 32,
                registers@ == Seq::new(i as nat, |j: int| 0u8),
            decreases 32 - i,
        {
            registers.push(0);
            assert(registers@ =~= Seq::new((i + 1) as nat, |j: int| 0u8));
            i = i + 1;
        }
        SimulationSnapshot {
            board: HostBoard::Mega2560Rev3,
            status: SimulatorStatus::Idle,
            source_path: None,
            firmware_path: None,
            status_message: owned("Load a .hex file or compile an .ino sketch to begin."),
            compile_log: String::new(),
            serial_text: String::new(),
            serial_bytes: 0,
            serial_configured_baud: 0,
            serial_rx_queued: 0,
            pc: 0,
            sp: 0,
            cycles: 0,
            synced_cycles: 0,
            sreg: 0,
            next_instruction: String::new(),
            registers,
            extra_lines: Vec::new(),
            host_pin_levels: Vec::new(),
            host_pin_recent_activity: Vec::new(),
        }
    }
}

/// The snapshot shared with the window and how many times it was published.
#[derive(Debug, Clone)]
pub struct SharedSimulationState {
    pub sequence: u64,
    pub snapshot: SimulationSnapshot,
}

impl Default for SharedSimulationState {
    fn default() -> (r: Self)
        ensures
            r.sequence == 1,
            r.snapshot.status == SimulatorStatus::Idle,
            r.snapshot.board == HostBoard::Mega2560Rev3,
            r.snapshot.firmware_path is None,
    {
        SharedSimulationState { sequence: 1, snapshot: SimulationSnapshot::default() }
    }
}

// ---------------------------------------------------------------------------
// Serial console text
// ---------------------------------------------------------------------------

/// The text that bytes decode to as UTF-8, with each invalid sequence
/// replaced by U+FFFD, as `String::from_utf8_lossy` does.
pub uninterp spec fn utf8_lossy(bytes: Seq<u8>) -> Seq<char>;

/// Decodes bytes with `String::from_utf8_lossy` (std); the result is named
/// by `utf8_lossy`.
#[verifier::external_body]
fn decode_utf8_lossy(bytes: &Vec<u8>) -> (r: String)
    ensures
        r@ == utf8_lossy(bytes@),
{
    String::from_utf8_lossy(bytes.as_slice()).into_owned()
}

/// `s` without carriage returns.
pub open spec fn drop_carriage_returns(s: Seq<char>) -> Seq<char>
    decreases s.len(),
{
    if s.len() == 0 {
        s
    } else if s.last() == '\r' {
        drop_carriage_returns(s.drop_last())
    } else {
        drop_carriage_returns(s.drop_last()).push(s.last())
    }
}

/// The text without its `\r` characters.
pub fn strip_carriage_returns(text: &str) -> (r: String)
    ensures
        r@ == drop_carriage_returns(text@),
{
    let chars = chars_of(text);
    let mut out: Vec<char> = Vec::new();
    let mut i: usize = 0;
    while i < chars.len()
        invariant
            i <= chars@.len(),
            out@ == drop_carriage_returns(chars@.take(i as int)),
        decreases chars.len() - i,
    {
        assert(chars@.take(i + 1).drop_last() =~= chars@.take(i as int));
        if chars[i] != '\r' {
            out.push(chars[i]);
        }
        i = i + 1;
    }
    assert(chars@.take(chars@.len() as int) =~= chars@);
    string_of(&out)
}

/// The last `SERIAL_TAIL_BYTES` bytes (all of them when fewer).
pub open spec fn serial_tail(bytes: Seq<u8>) -> Seq<u8> {
    if bytes.len() > SERIAL_TAIL_BYTES {
        bytes.skip(bytes.len() - SERIAL_TAIL_BYTES)
    } else {
        bytes
    }
}

/// The console text of the serial output: its recent tail decoded, without
/// carriage returns.
pub fn serial_text(serial_bytes: &[u8]) -> (r: String)
    ensures
        r@ == drop_carriage_returns(utf8_lossy(serial_tail(serial_bytes@))),
{
    let start: usize = if serial_bytes.len() > SERIAL_TAIL_BYTES {
        serial_bytes.len() - SERIAL_TAIL_BYTES
    } else {
        0
    };
    let mut tail: Vec<u8> = Vec::new();
    let mut i: usize = start;
    while i < serial_bytes.len()
        invariant
            start <= i <= serial_bytes@.len(),
            tail@ == serial_bytes@.subrange(start as int, i as int),
        decreases serial_bytes.len() - i,
    {
        tail.push(serial_bytes[i]);
        i = i + 1;
        assert(tail@ =~= serial_bytes@.subrange(start as int, i as int));
    }
    assert(tail@ =~= serial_tail(serial_bytes@));
    let decoded = decode_utf8_lossy(&tail);
    strip_carriage_returns(decoded.as_str())
}

// ---------------------------------------------------------------------------
// Pacing
// ---------------------------------------------------------------------------

/// How long `cycles` clock cycles take at `clock_hz`, as whole seconds and
/// the remaining nanoseconds (rounded down); zero for no cycles or no clock.
pub fn duration_for_cycles(cycles: u64, clock_hz: u32) -> (r: (u64, u32))
    ensures
        cycles == 0 || clock_hz == 0 ==> r == (0u64, 0u32),
        cycles > 0 && clock_hz > 0 ==> r.0 == cycles as int / clock_hz as int && r.1 == ((
        cycles as int % clock_hz as int) * 1_000_000_000) / clock_hz as int,
        r.1 < 1_000_000_000,
{
    if cycles == 0 || clock_hz == 0 {
        return (0, 0);
    }
    let hz = clock_hz as u64;
    let seconds = cycles / hz;
    let rem = cycles % hz;
    assert(rem * 1_000_000_000 < hz * 1_000_000_000) by (nonlinear_arith)
        requires
            rem < hz,
    ;
    assert(hz * 1_000_000_000 <= 0xFFFF_FFFFu64 * 1_000_000_000) by (nonlinear_arith)
        requires
            hz <= 0xFFFF_FFFFu64,
    ;
    let nanos = (rem * 1_000_000_000) / hz;
    assert(nanos < 1_000_000_000) by (nonlinear_arith)
        requires
            nanos == (rem * 1_000_000_000) / (hz as int),
            rem < hz,
            hz > 0,
    ;
    (seconds, nanos as u32)
}

// ---------------------------------------------------------------------------
// Compile log
// ---------------------------------------------------------------------------

/// A block of tool output under a heading, ending in a newline; nothing
/// when the output is blank.
pub open spec fn output_block(heading: Seq<char>, text: Seq<char>) -> Seq<char> {
    if spec_is_blank(text) {
        Seq::empty()
    } else if spec_ends_with(text, "\n"@) {
        heading + text
    } else {
        heading + text + "\n"@
    }
}

pub open spec fn spec_compile_log(a: CompileArtifact) -> Seq<char> {
    "$ arduino-cli compile --fqbn "@ + spec_host_board_fqbn(a.board) + " --build-path "@
        + a.build_path@ + " "@ + a.sketch_path@ + "\n"@ + output_block(
        "--- stdout ---\n"@,
        a.stdout@,
    ) + output_block("--- stderr ---\n"@, a.stderr@) + "Loaded HEX: "@ + a.hex_path@ + "\n"@
}

fn append_output_block(rendered: &mut String, heading: &str, text: &String)
    ensures
        final(rendered)@ == old(rendered)@ + output_block(heading@, text@),
{
    if is_blank(text.as_str()) {
        assert(old(rendered)@ + Seq::<char>::empty() =~= old(rendered)@);
        return ;
    }
    rendered.append(heading);
    rendered.append(text.as_str());
    let chars = chars_of(text.as_str());
    let nl = chars_of("\n");
    if !ends_with(&chars, &nl) {
        rendered.append("\n");
    }
}

/// The log shown after a successful compile: the command, its output, and
/// the HEX file loaded.
pub fn format_compile_log(artifact: &CompileArtifact) -> (r: String)
    ensures
        r@ == spec_compile_log(*artifact),
{
    let mut rendered = owned("$ arduino-cli compile --fqbn ");
    rendered.append(artifact.board.fqbn());
    rendered.append(" --build-path ");
    rendered.append(artifact.build_path.as_str());
    rendered.append(" ");
    rendered.append(artifact.sketch_path.as_str());
    rendered.append("\n");
    append_output_block(&mut rendered, "--- stdout ---\n", &artifact.stdout);
    append_output_block(&mut rendered, "--- stderr ---\n", &artifact.stderr);
    rendered.append("Loaded HEX: ");
    rendered.append(artifact.hex_path.as_str());
    rendered.append("\n");
    rendered
}

// ---------------------------------------------------------------------------
// The simulator worker's decisions
// ---------------------------------------------------------------------------

/// How long a pin stays marked active after it changed or was high, in
/// milliseconds.
pub const HOST_PIN_ACTIVITY_HOLD_MS: u64 = 240;

/// Bits on the wire per serial byte (start, eight data bits, stop).
pub const UART_BITS_PER_FRAME: u64 = 10;

/// Why a run of instructions stopped, as the runtime reports it.
#[derive(Debug, Clone, Copy, PartialEq, Eq, Structural)]
pub enum RunExit {
    BreakHit,
    Sleeping,
    UntilSerialSatisfied,
    MaxInstructionsReached,
}

pub open spec fn spec_map_runtime_exit(exit: Option<RunExit>) -> Option<SimulatorStatus> {
    match exit {
        Some(RunExit::BreakHit) => Some(SimulatorStatus::Break),
        Some(RunExit::Sleeping) => Some(SimulatorStatus::Sleep),
        Some(RunExit::UntilSerialSatisfied) => Some(SimulatorStatus::Done),
        Some(RunExit::MaxInstructionsReached) | None => None,
    }
}

/// The status a runtime exit puts the simulator in; a budget used up (or
/// no exit) leaves it as it was.
pub fn map_runtime_exit(exit: Option<RunExit>) -> (r: Option<SimulatorStatus>)
    ensures
        r == spec_map_runtime_exit(exit),
{
    match exit {
        Some(RunExit::BreakHit) => Some(SimulatorStatus::Break),
        Some(RunExit::Sleeping) => Some(SimulatorStatus::Sleep),
        Some(RunExit::UntilSerialSatisfied) => Some(SimulatorStatus::Done),
        Some(RunExit::MaxInstructionsReached) | None => None,
    }
}

/// The message shown when a run stops with `status`.
pub open spec fn spec_exit_message(status: SimulatorStatus) -> Seq<char> {
    match status {
        SimulatorStatus::Break => "Break instruction hit"@,
        SimulatorStatus::Sleep => "CPU entered sleep"@,
        SimulatorStatus::Done => "Simulation completed"@,
        _ => "Execution updated"@,
    }
}

pub fn exit_status_message(status: SimulatorStatus) -> (r: &'static str)
    ensures
        r@ == spec_exit_message(status),
{
    match status {
        SimulatorStatus::Break => "Break instruction hit",
        SimulatorStatus::Sleep => "CPU entered sleep",
        SimulatorStatus::Done => "Simulation completed",
        _ => "Execution updated",
    }
}

/// Clock cycles between injected serial bytes at `baud` (a baud of 0 read
/// as 1), at least one.
pub open spec fn spec_cycles_per_byte(clock_hz: u32, baud: u32) -> int {
    let b = if baud == 0 {
        1int
    } else {
        baud as int
    };
    let c = (clock_hz as int * UART_BITS_PER_FRAME) / b;
    if c < 1 {
        1
    } else {
        c
    }
}

pub fn serial_cycles_per_byte(clock_hz: u32, baud: u32) -> (r: u64)
    ensures
        r == spec_cycles_per_byte(clock_hz, baud),
{
    let b: u64 = if baud == 0 {
        1
    } else {
        baud as u64
    };
    assert(clock_hz as u64 * UART_BITS_PER_FRAME <= 0xFFFF_FFFFu64 * 10) by (nonlinear_arith)
        requires
            clock_hz <= 0xFFFF_FFFFu32,
    ;
    let c = (clock_hz as u64 * UART_BITS_PER_FRAME) / b;
    if c < 1 {
        1
    } else {
        c
    }
}

/// Serial input waiting to be fed to the MCU, one byte every
/// `cycles_per_byte` clock cycles from `next_cycle` on.
#[derive(Debug, Clone)]
pub struct PendingSerialInjection {
    pub remaining: Vec<u8>,
    pub cycles_per_byte: u64,
    pub next_cycle: u64,
}

/// What the simulator worker keeps besides the running firmware itself.
#[derive(Debug, Clone)]
pub struct WorkerState {
    pub loaded_board: HostBoard,
    pub source_path: Option<String>,
    pub firmware_path: Option<String>,
    pub compile_log: String,
    pub status_message: String,
    pub status: SimulatorStatus,
    pub pending_serial: Vec<PendingSerialInjection>,
    pub last_host_pin_levels: Vec<BoardPinLevel>,
    pub host_pin_activity_until: Vec<(BoardPin, u64)>,
    /// Where a run's wall time and simulated cycles were last lined up.
    pub run_pacing_anchor: Option<RunPacingAnchor>,
}

/// The wall time (in nanoseconds of a monotonic clock) and the synced cycle
/// count at which a run started being paced.
#[derive(Debug, Clone, Copy, PartialEq, Eq, Structural)]
pub struct RunPacingAnchor {
    pub wall_started_ns: u64,
    pub synced_cycles_started: u64,
}

/// `b` is `a` with at most its status and status message changed.
pub open spec fn same_but_status(a: WorkerState, b: WorkerState) -> bool {
    &&& b.loaded_board == a.loaded_board
    &&& b.source_path == a.source_path
    &&& b.firmware_path == a.firmware_path
    &&& b.compile_log == a.compile_log
    &&& b.pending_serial == a.pending_serial
    &&& b.last_host_pin_levels == a.last_host_pin_levels
    &&& b.host_pin_activity_until == a.host_pin_activity_until
    &&& b.run_pacing_anchor == a.run_pacing_anchor
}

/// The statuses a run can start from.
pub open spec fn can_run_from(s: SimulatorStatus) -> bool {
    s == SimulatorStatus::Ready || s == SimulatorStatus::Paused || s == SimulatorStatus::Break || s
        == SimulatorStatus::Sleep || s == SimulatorStatus::Done
}

pub open spec fn opt_str_view(o: Option<String>) -> Option<Seq<char>> {
    match o {
        Some(s) => Some(s@),
        None => None,
    }
}

impl WorkerState {
    pub fn new() -> (w: Self)
        ensures
            w.loaded_board == HostBoard::Mega2560Rev3,
            w.source_path is None,
            w.firmware_path is None,
            w.compile_log@.len() == 0,
            w.status_message@ == "Load a .hex file or compile an .ino sketch to begin."@,
            w.status == SimulatorStatus::Idle,
            w.pending_serial@.len() == 0,
            w.last_host_pin_levels@.len() == 0,
            w.host_pin_activity_until@.len() == 0,
            w.run_pacing_anchor is None,
    {
        WorkerState {
            loaded_board: HostBoard::Mega2560Rev3,
            source_path: None,
            firmware_path: None,
            compile_log: String::new(),
            status_message: owned("Load a .hex file or compile an .ino sketch to begin."),
            status: SimulatorStatus::Idle,
            pending_serial: Vec::new(),
            last_host_pin_levels: Vec::new(),
            host_pin_activity_until: Vec::new(),
            run_pacing_anchor: None,
        }
    }

    /// Records the outcome of loading `firmware_path` for `board`: ready to
    /// run, or the loader's error.
    pub fn load_runtime_from_hex(
        &mut self,
        board: HostBoard,
        source_path: Option<String>,
        firmware_path: &str,
        loaded: Result<(), String>,
    )
        ensures
            final(self).loaded_board == board,
            opt_str_view(final(self).source_path) == opt_str_view(source_path),
            final(self).firmware_path matches Some(f) && f@ == firmware_path@,
            match loaded {
                Ok(()) => final(self).status == SimulatorStatus::Ready
                    && final(self).status_message@ == "Loaded "@ + firmware_path@ + " for "@
                    + spec_host_board_label(board),
                Err(e) => final(self).status == SimulatorStatus::Error
                    && final(self).status_message@ == e@,
            },
            final(self).compile_log == old(self).compile_log,
            final(self).pending_serial == old(self).pending_serial,
            final(self).last_host_pin_levels == old(self).last_host_pin_levels,
            final(self).host_pin_activity_until == old(self).host_pin_activity_until,
    {
        self.loaded_board = board;
        self.source_path = source_path;
        self.firmware_path = Some(owned(firmware_path));
        match loaded {
            Ok(()) => {
                self.status = SimulatorStatus::Ready;
                let mut message = concat2("Loaded ", firmware_path);
                message.append(" for ");
                message.append(board.label());
                self.status_message = message;
            },
            Err(error) => {
                self.status = SimulatorStatus::Error;
                self.status_message = error;
            },
        }
    }

    /// Marks a compile of `path` for `board` as started.
    pub fn begin_compile(&mut self, path: &str, board: HostBoard)
        ensures
            final(self).loaded_board == board,
            final(self).source_path matches Some(p) && p@ == path@,
            final(self).status == SimulatorStatus::Compiling,
            final(self).status_message@ == "Compiling "@ + path@ + " for "@ + spec_host_board_label(
                board,
            ),
            final(self).firmware_path == old(self).firmware_path,
            final(self).compile_log == old(self).compile_log,
            final(self).pending_serial == old(self).pending_serial,
            final(self).last_host_pin_levels == old(self).last_host_pin_levels,
            final(self).host_pin_activity_until == old(self).host_pin_activity_until,
    {
        self.loaded_board = board;
        self.source_path = Some(owned(path));
        self.status = SimulatorStatus::Compiling;
        let mut message = concat2("Compiling ", path);
        message.append(" for ");
        message.append(board.label());
        self.status_message = message;
    }

    /// Records a compile that failed with `error`.
    pub fn compile_failed(&mut self, error: String)
        ensures
            same_but_status(*old(self), *final(self)),
            final(self).status == SimulatorStatus::Error,
            final(self).status_message@ == error@,
    {
        self.status = SimulatorStatus::Error;
        self.status_message = error;
    }

    /// A request to run: honoured with firmware loaded and the simulator
    /// stopped; says whether anything changed.
    pub fn request_run(&mut self, has_runtime: bool) -> (changed: bool)
        ensures
            same_but_status(*old(self), *final(self)),
            changed == (has_runtime && can_run_from(old(self).status)),
            changed ==> final(self).status == SimulatorStatus::Running
                && final(self).status_message@ == "Running firmware"@,
            !changed ==> *final(self) == *old(self),
    {
        if has_runtime && (self.status == SimulatorStatus::Ready || self.status
            == SimulatorStatus::Paused || self.status == SimulatorStatus::Break || self.status
            == SimulatorStatus::Sleep || self.status == SimulatorStatus::Done) {
            self.status = SimulatorStatus::Running;
            self.status_message = owned("Running firmware");
            true
        } else {
            false
        }
    }

    /// A request to pause: honoured while firmware runs.
    pub fn request_pause(&mut self, has_runtime: bool) -> (changed: bool)
        ensures
            same_but_status(*old(self), *final(self)),
            changed == (has_runtime && old(self).status == SimulatorStatus::Running),
            changed ==> final(self).status == SimulatorStatus::Paused
                && final(self).status_message@ == "Execution paused"@,
            !changed ==> *final(self) == *old(self),
    {
        if has_runtime && self.status == SimulatorStatus::Running {
            self.status = SimulatorStatus::Paused;
            self.status_message = owned("Execution paused");
            true
        } else {
            false
        }
    }

    /// Records a single step: the exit status it reported (paused when
    /// none, and never left running), or the runtime's error.
    pub fn finish_step(&mut self, outcome: Result<Option<SimulatorStatus>, String>)
        ensures
            same_but_status(*old(self), *final(self)),
            match outcome {
                Ok(exit) => {
                    &&& final(self).status == (match exit {
                        Some(SimulatorStatus::Running) | None => SimulatorStatus::Paused,
                        Some(s) => s,
                    })
                    &&& final(self).status_message@ == "Stepped one instruction"@
                },
                Err(e) => final(self).status == SimulatorStatus::Error
                    && final(self).status_message@ == e@,
            },
    {
        match outcome {
            Ok(exit) => {
                self.status = match exit {
                    Some(s) => s,
                    None => SimulatorStatus::Paused,
                };
                if self.status == SimulatorStatus::Running {
                    self.status = SimulatorStatus::Paused;
                }
                self.status_message = owned("Stepped one instruction");
            },
            Err(error) => {
                self.status = SimulatorStatus::Error;
                self.status_message = error;
            },
        }
    }

    /// Records a chunk of free running: the status it stopped in with its
    /// message, nothing when it did not stop, or the runtime's error.
    pub fn finish_chunk(&mut self, outcome: Result<Option<SimulatorStatus>, String>)
        ensures
            same_but_status(*old(self), *final(self)),
            match outcome {
                Ok(Some(exit)) => final(self).status == exit && final(self).status_message@
                    == spec_exit_message(exit),
                Ok(None) => *final(self) == *old(self),
                Err(e) => final(self).status == SimulatorStatus::Error
                    && final(self).status_message@ == e@,
            },
    {
        match outcome {
            Ok(Some(exit)) => {
                self.status = exit;
                self.status_message = owned(exit_status_message(exit));
            },
            Ok(None) => {},
            Err(error) => {
                self.status = SimulatorStatus::Error;
                self.status_message = error;
            },
        }
    }

    /// Running with no firmware loaded falls back to idle.
    pub fn stop_without_runtime(&mut self)
        ensures
            same_but_status(*old(self), *final(self)),
            final(self).status == SimulatorStatus::Idle,
            final(self).status_message@ == "No firmware loaded"@,
    {
        self.status = SimulatorStatus::Idle;
        self.status_message = owned("No firmware loaded");
    }

    pub fn note_serial_cleared(&mut self)
        ensures
            same_but_status(*old(self), *final(self)),
            final(self).status == old(self).status,
            final(self).status_message@ == "Cleared serial output"@,
    {
        self.status_message = owned("Cleared serial output");
    }

    /// The snapshot the window shows while no firmware runs: the worker's
    /// board, paths, status, message and compile log over the defaults.
    pub fn capture_snapshot(&self) -> (r: SimulationSnapshot)
        ensures
            r.board == self.loaded_board,
            opt_str_view(r.source_path) == opt_str_view(self.source_path),
            opt_str_view(r.firmware_path) == opt_str_view(self.firmware_path),
            r.status == self.status,
            r.status_message@ == self.status_message@,
            r.compile_log@ == self.compile_log@,
            r.serial_text@.len() == 0,
            r.serial_bytes == 0,
            r.serial_configured_baud == 0,
            r.serial_rx_queued == 0,
            r.pc == 0,
            r.sp == 0,
            r.cycles == 0,
            r.synced_cycles == 0,
            r.sreg == 0,
            r.next_instruction@.len() == 0,
            r.registers@ == Seq::new(32, |i: int| 0u8),
            r.extra_lines@.len() == 0,
            r.host_pin_levels@.len() == 0,
            r.host_pin_recent_activity@.len() == 0,
    {
        let mut snapshot = SimulationSnapshot::default();
        snapshot.board = self.loaded_board;
        snapshot.source_path = match &self.source_path {
            Some(p) => Some(owned(p.as_str())),
            None => None,
        };
        snapshot.firmware_path = match &self.firmware_path {
            Some(p) => Some(owned(p.as_str())),
            None => None,
        };
        snapshot.status = self.status;
        snapshot.status_message = owned(self.status_message.as_str());
        snapshot.compile_log = owned(self.compile_log.as_str());
        snapshot
    }
}

// ---------------------------------------------------------------------------
// Serial input fed at the line's pace
// ---------------------------------------------------------------------------

/// An injection as plain values: bytes left, cycles per byte, next cycle.
pub open spec fn pview(p: PendingSerialInjection) -> (Seq<u8>, u64, u64) {
    (p.remaining@, p.cycles_per_byte, p.next_cycle)
}

pub open spec fn qview(q: Seq<PendingSerialInjection>) -> Seq<(Seq<u8>, u64, u64)> {
    q.map_values(|p: PendingSerialInjection| pview(p))
}

pub open spec fn sat_add(a: u64, b: u64) -> u64 {
    if a + b > u64::MAX {
        u64::MAX
    } else {
        (a + b) as u64
    }
}

/// Feeding the queue at cycle `now`: the front injection gives its next
/// byte while that byte is due, moving its next cycle on by its pace
/// (saturating), and leaves the queue once empty; returns the bytes fed, in
/// order, and the queue left.
pub open spec fn serve_serial(q: Seq<(Seq<u8>, u64, u64)>, now: u64) -> (Seq<u8>, Seq<
    (Seq<u8>, u64, u64),
>)
    decreases q.len(), q[0].0.len(),
{
    if q.len() == 0 {
        (Seq::empty(), q)
    } else if q[0].2 > now {
        (Seq::empty(), q)
    } else if q[0].0.len() == 0 {
        serve_serial(q.drop_first(), now)
    } else {
        let byte = q[0].0[0];
        let rest = q[0].0.drop_first();
        if rest.len() == 0 {
            let after = serve_serial(q.drop_first(), now);
            (seq![byte] + after.0, after.1)
        } else {
            let after = serve_serial(q.update(0, (rest, q[0].1, sat_add(q[0].2, q[0].1))), now);
            (seq![byte] + after.0, after.1)
        }
    }
}

impl WorkerState {
    /// Queues serial input for the running firmware, paced for `baud` at
    /// `clock_hz` and starting at cycle `current_cycle`; empty input, or no
    /// firmware, changes nothing.
    pub fn queue_serial(
        &mut self,
        has_runtime: bool,
        payload: &[u8],
        baud: u32,
        clock_hz: u32,
        current_cycle: u64,
    ) -> (changed: bool)
        ensures
            changed == (has_runtime && payload@.len() > 0),
            !changed ==> *final(self) == *old(self),
            changed ==> {
                &&& qview(final(self).pending_serial@) == qview(old(self).pending_serial@).push(
                    (payload@, spec_cycles_per_byte(clock_hz, baud) as u64, current_cycle),
                )
                &&& final(self).status_message@ == "Queued serial input at "@ + spec_decimal(
                    baud as nat,
                ) + " baud"@
                &&& final(self).status == old(self).status
                &&& final(self).loaded_board == old(self).loaded_board
                &&& final(self).source_path == old(self).source_path
                &&& final(self).firmware_path == old(self).firmware_path
                &&& final(self).compile_log == old(self).compile_log
                &&& final(self).last_host_pin_levels == old(self).last_host_pin_levels
                &&& final(self).host_pin_activity_until == old(self).host_pin_activity_until
            },
    {
        if payload.len() == 0 || !has_runtime {
            return false;
        }
        let mut remaining: Vec<u8> = Vec::new();
        let mut i: usize = 0;
        while i < payload.len()
            invariant
                i <= payload@.len(),
                remaining@ == payload@.take(i as int),
            decreases payload.len() - i,
        {
            remaining.push(payload[i]);
            i = i + 1;
            assert(remaining@ =~= payload@.take(i as int));
        }
        assert(payload@.take(i as int) =~= payload@);
        let cycles_per_byte = serial_cycles_per_byte(clock_hz, baud);
        let ghost before = qview(self.pending_serial@);
        self.pending_serial.push(
            PendingSerialInjection { remaining, cycles_per_byte, next_cycle: current_cycle },
        );
        assert(qview(self.pending_serial@) =~= before.push(
            (payload@, cycles_per_byte, current_cycle),
        ));
        let digits = string_of(&decimal(baud as u64));
        let mut message = concat2("Queued serial input at ", digits.as_str());
        message.append(" baud");
        self.status_message = message;
        true
    }

    /// Feeds the queued serial input that is due at `current_cycle`; returns
    /// the bytes to hand to the MCU, in order.
    pub fn service_pending_serial(&mut self, current_cycle: u64) -> (fed: Vec<u8>)
        ensures
            fed@ == serve_serial(qview(old(self).pending_serial@), current_cycle).0,
            qview(final(self).pending_serial@) == serve_serial(
                qview(old(self).pending_serial@),
                current_cycle,
            ).1,
            final(self).status == old(self).status,
            final(self).status_message == old(self).status_message,
            final(self).loaded_board == old(self).loaded_board,
            final(self).source_path == old(self).source_path,
            final(self).firmware_path == old(self).firmware_path,
            final(self).compile_log == old(self).compile_log,
            final(self).last_host_pin_levels == old(self).last_host_pin_levels,
            final(self).host_pin_activity_until == old(self).host_pin_activity_until,
    {
        let ghost q0 = qview(self.pending_serial@);
        let mut fed: Vec<u8> = Vec::new();
        loop
            invariant
                serve_serial(q0, current_cycle).0 == fed@ + serve_serial(
                    qview(self.pending_serial@),
                    current_cycle,
                ).0,
                serve_serial(q0, current_cycle).1 == serve_serial(
                    qview(self.pending_serial@),
                    current_cycle,
                ).1,
                self.status == old(self).status,
                self.status_message == old(self).status_message,
                self.loaded_board == old(self).loaded_board,
                self.source_path == old(self).source_path,
                self.firmware_path == old(self).firmware_path,
                self.compile_log == old(self).compile_log,
                self.last_host_pin_levels == old(self).last_host_pin_levels,
                self.host_pin_activity_until == old(self).host_pin_activity_until,
            ensures
                serve_serial(q0, current_cycle).0 == fed@,
                serve_serial(q0, current_cycle).1 == qview(self.pending_serial@),
                self.status == old(self).status,
                self.status_message == old(self).status_message,
                self.loaded_board == old(self).loaded_board,
                self.source_path == old(self).source_path,
                self.firmware_path == old(self).firmware_path,
                self.compile_log == old(self).compile_log,
                self.last_host_pin_levels == old(self).last_host_pin_levels,
                self.host_pin_activity_until == old(self).host_pin_activity_until,
            decreases self.pending_serial@.len(), self.pending_serial@[0].remaining@.len(),
        {
            let ghost q = qview(self.pending_serial@);
            if self.pending_serial.len() == 0 {
                assert(fed@ + Seq::<u8>::empty() =~= fed@);
                break;
            }
            if self.pending_serial[0].next_cycle > current_cycle {
                assert(fed@ + Seq::<u8>::empty() =~= fed@);
                break;
            }
            if self.pending_serial[0].remaining.len() == 0 {
                self.pending_serial.remove(0);
                assert(qview(self.pending_serial@) =~= q.drop_first());
                continue;
            }
            let mut front = self.pending_serial.remove(0);
            assert(qview(self.pending_serial@) =~= q.drop_first());
            let byte = front.remaining[0];
            front.remaining.remove(0);
            assert(front.remaining@ =~= q[0].0.drop_first());
            front.next_cycle = front.next_cycle.saturating_add(front.cycles_per_byte);
            fed.push(byte);
            if front.remaining.len() > 0 {
                let ghost fv = pview(front);
                self.pending_serial.insert(0, front);
                assert(qview(self.pending_serial@) =~= q.update(0, fv));
            }
            assert(fed@ =~= (fed@.drop_last() + seq![byte]));
        }
        fed
    }
}

// ---------------------------------------------------------------------------
// Recent pin activity
// ---------------------------------------------------------------------------

/// The level last listed for `pin`.
pub open spec fn level_of(levels: Seq<BoardPinLevel>, pin: BoardPin) -> Option<u8>
    decreases levels.len(),
{
    if levels.len() == 0 {
        None
    } else if levels.last().pin == pin {
        Some(levels.last().level)
    } else {
        level_of(levels.drop_last(), pin)
    }
}

/// The deadline last listed for `pin`.
pub open spec fn deadline_of(marks: Seq<(BoardPin, u64)>, pin: BoardPin) -> Option<u64>
    decreases marks.len(),
{
    if marks.len() == 0 {
        None
    } else if marks.last().0 == pin {
        Some(marks.last().1)
    } else {
        deadline_of(marks.drop_last(), pin)
    }
}

/// No pin is listed twice.
pub open spec fn pins_unique(marks: Seq<(BoardPin, u64)>) -> bool {
    forall|i: int, j: int| 0 <= i < j < marks.len() ==> #[trigger] marks[i].0 != #[trigger] marks[j].0
}

/// A pin level counts as activity when it changed since the previous
/// levels (a pin not listed before counts when high), or is high.
pub open spec fn is_activity(entry: BoardPinLevel, previous: Seq<BoardPinLevel>) -> bool {
    let changed = match level_of(previous, entry.pin) {
        Some(p) => p != entry.level,
        None => entry.level != 0,
    };
    changed || entry.level != 0
}

/// Whether some new level of `pin` counts as activity.
pub open spec fn touched(next: Seq<BoardPinLevel>, previous: Seq<BoardPinLevel>, pin: BoardPin) -> bool {
    exists|k: int| 0 <= k < next.len() && #[trigger] next[k].pin == pin && is_activity(next[k], previous)
}

/// The activity deadline of `pin` after new levels at time `now`: a fresh
/// hold for a touched pin, else the old deadline; kept while the pin is
/// high or the deadline is still ahead.
pub open spec fn refreshed_deadline(
    marks: Seq<(BoardPin, u64)>,
    previous: Seq<BoardPinLevel>,
    next: Seq<BoardPinLevel>,
    now: u64,
    pin: BoardPin,
) -> Option<u64> {
    let d = if touched(next, previous, pin) {
        Some((now + HOST_PIN_ACTIVITY_HOLD_MS) as u64)
    } else {
        deadline_of(marks, pin)
    };
    match d {
        Some(x) => {
            let high = match level_of(next, pin) {
                Some(l) => l != 0,
                None => false,
            };
            if high || x > now {
                Some(x)
            } else {
                None
            }
        },
        None => None,
    }
}

/// The last levels whose pins are still marked active at `now`, each shown
/// high.
pub open spec fn recent_activity(levels: Seq<BoardPinLevel>, marks: Seq<(BoardPin, u64)>, now: u64) -> Seq<
    BoardPinLevel,
>
    decreases levels.len(),
{
    if levels.len() == 0 {
        Seq::empty()
    } else {
        let rest = recent_activity(levels.drop_last(), marks, now);
        let e = levels.last();
        if deadline_of(marks, e.pin) matches Some(d) && d > now {
            rest.push(BoardPinLevel { pin: e.pin, level: 1 })
        } else {
            rest
        }
    }
}

fn level_lookup(levels: &Vec<BoardPinLevel>, pin: BoardPin) -> (r: Option<u8>)
    ensures
        r == level_of(levels@, pin),
{
    let mut i: usize = levels.len();
    assert(levels@.take(i as int) =~= levels@);
    while i > 0
        invariant
            i <= levels@.len(),
            level_of(levels@, pin) == level_of(levels@.take(i as int), pin),
        decreases i,
    {
        assert(levels@.take(i as int).drop_last() =~= levels@.take(i - 1));
        if levels[i - 1].pin == pin {
            return Some(levels[i - 1].level);
        }
        i = i - 1;
    }
    None
}

fn deadline_lookup(marks: &Vec<(BoardPin, u64)>, pin: BoardPin) -> (r: Option<u64>)
    ensures
        r == deadline_of(marks@, pin),
{
    let mut i: usize = marks.len();
    assert(marks@.take(i as int) =~= marks@);
    while i > 0
        invariant
            i <= marks@.len(),
            deadline_of(marks@, pin) == deadline_of(marks@.take(i as int), pin),
        decreases i,
    {
        assert(marks@.take(i as int).drop_last() =~= marks@.take(i - 1));
        if marks[i - 1].0 == pin {
            return Some(marks[i - 1].1);
        }
        i = i - 1;
    }
    None
}

proof fn lemma_deadline_unique(marks: Seq<(BoardPin, u64)>, k: int)
    requires
        pins_unique(marks),
        0 <= k < marks.len(),
    ensures
        deadline_of(marks, marks[k].0) == Some(marks[k].1),
    decreases marks.len(),
{
    if k < marks.len() - 1 {
        assert(marks[k].0 != marks[marks.len() - 1].0);
        assert(marks.drop_last()[k] == marks[k]);
        lemma_deadline_unique(marks.drop_last(), k);
    }
}

proof fn lemma_deadline_absent(marks: Seq<(BoardPin, u64)>, pin: BoardPin)
    requires
        forall|k: int| 0 <= k < marks.len() ==> #[trigger] marks[k].0 != pin,
    ensures
        deadline_of(marks, pin) is None,
    decreases marks.len(),
{
    if marks.len() > 0 {
        lemma_deadline_absent(marks.drop_last(), pin);
    }
}

proof fn lemma_deadline_update_other(
    marks: Seq<(BoardPin, u64)>,
    i: int,
    v: (BoardPin, u64),
    other: BoardPin,
)
    requires
        0 <= i < marks.len(),
        marks[i].0 == v.0,
        other != v.0,
    ensures
        deadline_of(marks.update(i, v), other) == deadline_of(marks, other),
    decreases marks.len(),
{
    let u = marks.update(i, v);
    if i == marks.len() - 1 {
        assert(u.drop_last() =~= marks.drop_last());
    } else {
        assert(u.last() == marks.last());
        assert(u.drop_last() =~= marks.drop_last().update(i, v));
        lemma_deadline_update_other(marks.drop_last(), i, v, other);
    }
}

/// Sets the deadline of `pin`, keeping each pin listed once.
fn set_deadline(marks: &mut Vec<(BoardPin, u64)>, pin: BoardPin, deadline: u64)
    requires
        pins_unique(old(marks)@),
    ensures
        pins_unique(final(marks)@),
        deadline_of(final(marks)@, pin) == Some(deadline),
        forall|other: BoardPin| other != pin ==> #[trigger] deadline_of(final(marks)@, other)
            == deadline_of(old(marks)@, other),
{
    let ghost before = marks@;
    let mut i: usize = 0;
    while i < marks.len()
        invariant
            i <= marks@.len(),
            marks@ == before,
            before == old(marks)@,
            pins_unique(before),
            forall|k: int| 0 <= k < i ==> #[trigger] marks@[k].0 != pin,
        decreases marks.len() - i,
    {
        if marks[i].0 == pin {
            marks.set(i, (pin, deadline));
            proof {
                assert(marks@ =~= before.update(i as int, (pin, deadline)));
                assert forall|a: int, b: int| 0 <= a < b < marks@.len() implies #[trigger] marks@[a].0
                    != #[trigger] marks@[b].0 by {
                    assert(before[a].0 != before[b].0);
                }
                lemma_deadline_unique(marks@, i as int);
                assert forall|other: BoardPin| other != pin implies #[trigger] deadline_of(marks@, other)
                    == deadline_of(before, other) by {
                    lemma_deadline_update_other(before, i as int, (pin, deadline), other);
                }

            }
            return;
        }
        i = i + 1;
    }
    marks.push((pin, deadline));
    proof {
        assert(marks@.drop_last() =~= before);
        assert forall|a: int, b: int| 0 <= a < b < marks@.len() implies #[trigger] marks@[a].0
            != #[trigger] marks@[b].0 by {
            if b < before.len() {
                assert(before[a].0 != before[b].0);
            } else {
                assert(marks@[a] == before[a]);
            }
        }
    }
}


/// Whether `pin` shows a high level among `next`.
pub open spec fn shows_high(next: Seq<BoardPinLevel>, pin: BoardPin) -> bool {
    match level_of(next, pin) {
        Some(l) => l != 0,
        None => false,
    }
}

/// The marks kept at `now`: those of high pins and those not yet run out.
pub open spec fn live_marks(marks: Seq<(BoardPin, u64)>, next: Seq<BoardPinLevel>, now: u64) -> Seq<
    (BoardPin, u64),
>
    decreases marks.len(),
{
    if marks.len() == 0 {
        Seq::empty()
    } else {
        let rest = live_marks(marks.drop_last(), next, now);
        let m = marks.last();
        if shows_high(next, m.0) || m.1 > now {
            rest.push(m)
        } else {
            rest
        }
    }
}

proof fn lemma_live_marks(marks: Seq<(BoardPin, u64)>, next: Seq<BoardPinLevel>, now: u64)
    requires
        pins_unique(marks),
    ensures
        pins_unique(live_marks(marks, next, now)),
        forall|k: int|
            #![trigger live_marks(marks, next, now)[k]]
            0 <= k < live_marks(marks, next, now).len() ==> exists|m: int|
                0 <= m < marks.len() && #[trigger] marks[m] == live_marks(marks, next, now)[k],
        forall|pin: BoardPin| #[trigger] deadline_of(live_marks(marks, next, now), pin) == match deadline_of(
            marks,
            pin,
        ) {
            Some(x) => if shows_high(next, pin) || x > now {
                Some(x)
            } else {
                None
            },
            None => None,
        },
    decreases marks.len(),
{
    if marks.len() > 0 {
        let init = marks.drop_last();
        let m = marks.last();
        assert(pins_unique(init)) by {
            assert forall|i: int, j: int| 0 <= i < j < init.len() implies #[trigger] init[i].0
                != #[trigger] init[j].0 by {
                assert(marks[i].0 != marks[j].0);
            }
        }
        lemma_live_marks(init, next, now);
        let rest = live_marks(init, next, now);
        assert forall|k: int| 0 <= k < rest.len() implies #[trigger] rest[k].0 != m.0 by {
            let i = choose|i: int| 0 <= i < init.len() && #[trigger] init[i] == rest[k];
            assert(marks[i].0 != marks[marks.len() - 1].0);
        }
        assert forall|k: int| 0 <= k < init.len() implies #[trigger] init[k].0 != m.0 by {
            assert(marks[k].0 != marks[marks.len() - 1].0);
        }
        lemma_deadline_absent(init, m.0);
        assert forall|pin: BoardPin| #[trigger] deadline_of(marks, pin) == if m.0 == pin {
            Some(m.1)
        } else {
            deadline_of(init, pin)
        } by {}
        assert forall|pin: BoardPin| #[trigger] deadline_of(live_marks(marks, next, now), pin) == match deadline_of(
            marks,
            pin,
        ) {
            Some(x) => if shows_high(next, pin) || x > now {
                Some(x)
            } else {
                None
            },
            None => None,
        } by {
            if shows_high(next, m.0) || m.1 > now {
                assert(live_marks(marks, next, now) == rest.push(m));
                assert(rest.push(m).drop_last() =~= rest);
            } else {
                assert(live_marks(marks, next, now) == rest);
                lemma_deadline_absent(rest, m.0);
            }
            assert(deadline_of(rest, pin) == match deadline_of(init, pin) {
                Some(x) => if shows_high(next, pin) || x > now {
                    Some(x)
                } else {
                    None
                },
                None => None,
            });
        }
        if shows_high(next, m.0) || m.1 > now {
            let r = rest.push(m);
            assert forall|i: int, j: int| 0 <= i < j < r.len() implies #[trigger] r[i].0
                != #[trigger] r[j].0 by {
                if j == rest.len() {
                    assert(rest[i].0 != m.0);
                } else {
                    assert(rest[i].0 != rest[j].0);
                }
            }
            assert forall|k: int|
                #![trigger r[k]]
                0 <= k < r.len() implies exists|mm: int| 0 <= mm < marks.len() && #[trigger] marks[mm] == r[k] by {
                if k < rest.len() {
                    let i = choose|i: int| 0 <= i < init.len() && #[trigger] init[i] == rest[k];
                    assert(marks[i] == r[k]);
                } else {
                    assert(marks[marks.len() - 1] == r[k]);
                }
            }
        } else {
            lemma_deadline_absent(rest, m.0);
            assert forall|k: int|
                #![trigger rest[k]]
                0 <= k < rest.len() implies exists|mm: int| 0 <= mm < marks.len() && #[trigger] marks[mm] == rest[k] by {
                let i = choose|i: int| 0 <= i < init.len() && #[trigger] init[i] == rest[k];
                assert(marks[i] == rest[k]);
            }
        }
    }
}

fn drop_expired_marks(marks: &Vec<(BoardPin, u64)>, next: &Vec<BoardPinLevel>, now_ms: u64) -> (r: Vec<
    (BoardPin, u64),
>)
    ensures
        r@ == live_marks(marks@, next@, now_ms),
{
    let mut kept: Vec<(BoardPin, u64)> = Vec::new();
    let mut j: usize = 0;
    while j < marks.len()
        invariant
            j <= marks@.len(),
            kept@ == live_marks(marks@.take(j as int), next@, now_ms),
        decreases marks.len() - j,
    {
        assert(marks@.take(j + 1).drop_last() =~= marks@.take(j as int));
        let (pin, deadline) = marks[j];
        let high = match level_lookup(next, pin) {
            Some(level) => level != 0,
            None => false,
        };
        if high || deadline > now_ms {
            kept.push((pin, deadline));
        }
        j = j + 1;
    }
    assert(marks@.take(marks@.len() as int) =~= marks@);
    kept
}

impl WorkerState {
    /// The worker's invariant: each pin has at most one activity deadline.
    pub open spec fn wf(&self) -> bool {
        pins_unique(self.host_pin_activity_until@)
    }

    /// Takes in the host pin levels the firmware now shows (`None` when no
    /// firmware is loaded) at time `now_ms`: marks the pins that changed or
    /// are high as active for `HOST_PIN_ACTIVITY_HOLD_MS`, forgets marks
    /// that ran out on low pins, and keeps the levels.
    pub fn refresh_host_pin_activity(&mut self, levels: Option<Vec<BoardPinLevel>>, now_ms: u64)
        requires
            old(self).wf(),
            now_ms + HOST_PIN_ACTIVITY_HOLD_MS <= u64::MAX,
        ensures
            final(self).wf(),
            match levels {
                None => final(self).last_host_pin_levels@.len() == 0
                    && final(self).host_pin_activity_until@.len() == 0,
                Some(next) => {
                    &&& final(self).last_host_pin_levels@ == next@
                    &&& forall|pin: BoardPin| #[trigger] deadline_of(
                        final(self).host_pin_activity_until@,
                        pin,
                    ) == refreshed_deadline(
                        old(self).host_pin_activity_until@,
                        old(self).last_host_pin_levels@,
                        next@,
                        now_ms,
                        pin,
                    )
                },
            },
            final(self).status == old(self).status,
            final(self).status_message == old(self).status_message,
            final(self).loaded_board == old(self).loaded_board,
            final(self).source_path == old(self).source_path,
            final(self).firmware_path == old(self).firmware_path,
            final(self).compile_log == old(self).compile_log,
            final(self).pending_serial == old(self).pending_serial,
    {
        let next = match levels {
            None => {
                self.last_host_pin_levels = Vec::new();
                self.host_pin_activity_until = Vec::new();
                return;
            },
            Some(next) => next,
        };
        let ghost marks0 = self.host_pin_activity_until@;
        let ghost prev = self.last_host_pin_levels@;
        let hold_until = now_ms + HOST_PIN_ACTIVITY_HOLD_MS;
        let mut marks: Vec<(BoardPin, u64)> = Vec::new();
        std::mem::swap(&mut marks, &mut self.host_pin_activity_until);
        let mut i: usize = 0;
        while i < next.len()
            invariant
                i <= next@.len(),
                prev == self.last_host_pin_levels@,
                pins_unique(marks@),
                hold_until == now_ms + HOST_PIN_ACTIVITY_HOLD_MS,
                forall|pin: BoardPin| #[trigger] deadline_of(marks@, pin) == if touched(
                    next@.take(i as int),
                    prev,
                    pin,
                ) {
                    Some(hold_until)
                } else {
                    deadline_of(marks0, pin)
                },
            decreases next.len() - i,
        {
            let entry = next[i];
            let changed = match level_lookup(&self.last_host_pin_levels, entry.pin) {
                Some(previous) => previous != entry.level,
                None => entry.level != 0,
            };
            if changed || entry.level != 0 {
                set_deadline(&mut marks, entry.pin, hold_until);
            }
            proof {
                let t0 = next@.take(i as int);
                let t1 = next@.take(i + 1);
                assert(t1[i as int] == entry);
                assert forall|pin: BoardPin| touched(t1, prev, pin) == (touched(t0, prev, pin) || (
                entry.pin == pin && is_activity(entry, prev))) by {
                    if touched(t1, prev, pin) {
                        let k = choose|k: int|
                            0 <= k < t1.len() && #[trigger] t1[k].pin == pin && is_activity(t1[k], prev);
                        if k < i {
                            assert(t0[k] == t1[k]);
                        }
                    }
                    if touched(t0, prev, pin) {
                        let k = choose|k: int|
                            0 <= k < t0.len() && #[trigger] t0[k].pin == pin && is_activity(t0[k], prev);
                        assert(t1[k] == t0[k]);
                    }
                }
            }
            i = i + 1;
        }
        assert(next@.take(next@.len() as int) =~= next@);
        let kept = drop_expired_marks(&marks, &next, now_ms);
        proof {
            lemma_live_marks(marks@, next@, now_ms);
        }
        self.host_pin_activity_until = kept;
        self.last_host_pin_levels = next;
    }

    /// The last levels whose pins are still marked active at `now_ms`, each
    /// shown high.
    pub fn recent_host_pin_activity(&self, now_ms: u64) -> (r: Vec<BoardPinLevel>)
        ensures
            r@ == recent_activity(self.last_host_pin_levels@, self.host_pin_activity_until@, now_ms),
    {
        let levels = &self.last_host_pin_levels;
        let mut out: Vec<BoardPinLevel> = Vec::new();
        let mut i: usize = 0;
        while i < levels.len()
            invariant
                i <= levels@.len(),
                out@ == recent_activity(levels@.take(i as int), self.host_pin_activity_until@, now_ms),
            decreases levels.len() - i,
        {
            assert(levels@.take(i + 1).drop_last() =~= levels@.take(i as int));
            let entry = levels[i];
            match deadline_lookup(&self.host_pin_activity_until, entry.pin) {
                Some(deadline) => {
                    if deadline > now_ms {
                        out.push(BoardPinLevel { pin: entry.pin, level: 1 });
                    }
                },
                None => {},
            }
            i = i + 1;
        }
        assert(levels@.take(levels@.len() as int) =~= levels@);
        out
    }
}

// ---------------------------------------------------------------------------
// The next instruction, as text
// ---------------------------------------------------------------------------

/// The pointer register of an indirect load or store.
#[derive(Debug, Clone, Copy, PartialEq, Eq, Structural)]
pub enum PointerRegister {
    X,
    Y,
    Z,
}

/// How an indirect access moves its pointer.
#[derive(Debug, Clone, Copy, PartialEq, Eq, Structural)]
pub enum PointerMode {
    PostIncrement,
    PreDecrement,
}

/// The operands a decoded instruction names.
#[derive(Debug, Clone, Copy)]
pub struct OperandSet {
    pub d: Option<u8>,
    pub r: Option<u8>,
    pub a: Option<u8>,
    pub b: Option<u8>,
    pub s: Option<u8>,
    pub k: Option<u32>,
    pub q: Option<u8>,
    pub pointer: Option<PointerRegister>,
    pub mode: Option<PointerMode>,
}

/// A decoded instruction: where it sits, its words, its mnemonic's name and
/// its operands.
#[derive(Debug, Clone)]
pub struct DecodedInstruction {
    pub address: u32,
    pub opcode: u16,
    pub next_word: Option<u16>,
    pub mnemonic: String,
    pub word_length: u8,
    pub operands: OperandSet,
}

/// Upper-case hexadecimal digit of `d` (below 16).
pub open spec fn hex_digit(d: nat) -> char {
    if d < 10 {
        ((d as int) + ('0' as int)) as char
    } else {
        ((d as int) - 10 + ('A' as int)) as char
    }
}

/// Upper-case hexadecimal spelling of `n`, without leading zeros.
pub open spec fn spec_hex(n: nat) -> Seq<char>
    decreases n,
{
    if n < 16 {
        seq![hex_digit(n)]
    } else {
        spec_hex(n / 16).push(hex_digit(n % 16))
    }
}

/// `digits` with zeros in front up to `width` characters.
pub open spec fn zero_padded(digits: Seq<char>, width: nat) -> Seq<char> {
    if digits.len() >= width {
        digits
    } else {
        Seq::new((width - digits.len()) as nat, |i: int| '0') + digits
    }
}

/// `n` as `{:0width$X}` writes it.
pub open spec fn spec_hex_padded(n: nat, width: nat) -> Seq<char> {
    zero_padded(spec_hex(n), width)
}

fn hex_digits(n: u64) -> (r: Vec<char>)
    ensures
        r@ == spec_hex(n as nat),
    decreases n,
{
    let d: u8 = (n % 16) as u8;
    let c: char = if d < 10 {
        (d + 48) as char
    } else {
        (d - 10 + 65) as char
    };
    assert(c == hex_digit((n % 16) as nat));
    if n < 16 {
        let mut r: Vec<char> = Vec::new();
        r.push(c);
        assert(r@ =~= seq![hex_digit(n as nat)]);
        r
    } else {
        let mut r = hex_digits(n / 16);
        r.push(c);
        r
    }
}

fn hex_padded(n: u64, width: usize) -> (r: Vec<char>)
    ensures
        r@ == spec_hex_padded(n as nat, width as nat),
{
    let digits = hex_digits(n);
    if digits.len() >= width {
        return digits;
    }
    let mut r: Vec<char> = Vec::new();
    let fill = width - digits.len();
    let mut i: usize = 0;
    while i < fill
        invariant
            i <= fill,
            r@ == Seq::new(i as nat, |j: int| '0'),
        decreases fill - i,
    {
        r.push('0');
        i = i + 1;
        assert(r@ =~= Seq::new(i as nat, |j: int| '0'));
    }
    push_all(&mut r, &digits);
    r
}

/// Pieces joined with single spaces.
pub open spec fn join_spaced(parts: Seq<Seq<char>>) -> Seq<char>
    decreases parts.len(),
{
    if parts.len() == 0 {
        Seq::empty()
    } else if parts.len() == 1 {
        parts[0]
    } else {
        join_spaced(parts.drop_last()) + " "@ + parts.last()
    }
}

pub open spec fn spec_pointer_text(p: PointerRegister, mode: Option<PointerMode>) -> Seq<char> {
    let name = match p {
        PointerRegister::X => "X"@,
        PointerRegister::Y => "Y"@,
        PointerRegister::Z => "Z"@,
    };
    match mode {
        Some(PointerMode::PostIncrement) => name + "+"@,
        Some(PointerMode::PreDecrement) => "-"@ + name,
        None => name,
    }
}

/// `label` followed by the value, for an operand that is present.
pub open spec fn opt_part(label: Seq<char>, value: Option<Seq<char>>) -> Seq<Seq<char>> {
    match value {
        Some(v) => seq![label + v],
        None => Seq::empty(),
    }
}

pub open spec fn dec_opt(v: Option<u8>) -> Option<Seq<char>> {
    match v {
        Some(x) => Some(spec_decimal(x as nat)),
        None => None,
    }
}

/// The operand pieces: the pointer with its mode, then `d=r<d>`, `r=r<r>`,
/// `a=0x<a>` (two hex digits), `b=`, `s=`, `k=`, `q=` in decimal, for the
/// operands present.
pub open spec fn operand_parts(o: OperandSet) -> Seq<Seq<char>> {
    pointer_part(o) + opt_part("d=r"@, dec_opt(o.d)) + opt_part("r=r"@, dec_opt(o.r)) + opt_part(
        "a=0x"@,
        hex_opt(o.a),
    ) + opt_part("b="@, dec_opt(o.b)) + opt_part("s="@, dec_opt(o.s)) + opt_part(
        "k="@,
        wide_opt(o.k),
    ) + opt_part("q="@, dec_opt(o.q))
}

fn push_part(parts: &mut Vec<String>, label: &str, value: &Vec<char>)
    ensures
        views(final(parts)@) == views(old(parts)@).push(label@ + value@),
{
    let ghost before = views(parts@);
    let text = string_of(value);
    parts.push(concat2(label, text.as_str()));
    assert(views(parts@) =~= before.push(label@ + value@));
}

fn join_with_spaces(parts: &Vec<String>) -> (r: String)
    ensures
        r@ == join_spaced(views(parts@)),
{
    let mut r = String::new();
    let mut i: usize = 0;
    proof {
        reveal_strlit("");
    }
    while i < parts.len()
        invariant
            i <= parts@.len(),
            r@ == join_spaced(views(parts@).take(i as int)),
        decreases parts.len() - i,
    {
        let ghost before = r@;
        assert(views(parts@).take(i + 1).drop_last() =~= views(parts@).take(i as int));
        if i > 0 {
            r.append(" ");
        }
        r.append(parts[i].as_str());
        assert(views(parts@).take(i + 1).last() == parts@[i as int]@);
        if i == 0 {
            assert(r@ =~= before + parts@[0]@);
        }
        i = i + 1;
    }
    assert(views(parts@).take(parts@.len() as int) =~= views(parts@));
    r
}

fn push_decimal_part(parts: &mut Vec<String>, label: &str, value: Option<u8>)
    ensures
        views(final(parts)@) == views(old(parts)@) + opt_part(label@, dec_opt(value)),
{
    let ghost before = views(parts@);
    if let Some(v) = value {
        push_part(parts, label, &decimal(v as u64));
    }
    assert(views(parts@) =~= before + opt_part(label@, dec_opt(value)));
}

pub open spec fn pointer_part(o: OperandSet) -> Seq<Seq<char>> {
    match o.pointer {
        Some(p) => seq![spec_pointer_text(p, o.mode)],
        None => Seq::empty(),
    }
}

pub open spec fn hex_opt(v: Option<u8>) -> Option<Seq<char>> {
    match v {
        Some(x) => Some(spec_hex_padded(x as nat, 2)),
        None => None,
    }
}

pub open spec fn wide_opt(v: Option<u32>) -> Option<Seq<char>> {
    match v {
        Some(x) => Some(spec_decimal(x as nat)),
        None => None,
    }
}

pub fn format_operands(instruction: &DecodedInstruction) -> (r: String)
    ensures
        r@ == join_spaced(operand_parts(instruction.operands)),
{
    let o = instruction.operands;
    let mut parts: Vec<String> = Vec::new();
    match o.pointer {
        Some(p) => {
            let name = match p {
                PointerRegister::X => "X",
                PointerRegister::Y => "Y",
                PointerRegister::Z => "Z",
            };
            let text = match o.mode {
                Some(PointerMode::PostIncrement) => concat2(name, "+"),
                Some(PointerMode::PreDecrement) => concat2("-", name),
                None => owned(name),
            };
            parts.push(text);
        },
        None => {},
    }
    let ghost p0 = views(parts@);
    assert(p0 =~= pointer_part(o));
    push_decimal_part(&mut parts, "d=r", o.d);
    push_decimal_part(&mut parts, "r=r", o.r);
    let ghost p2 = views(parts@);
    if let Some(a) = o.a {
        push_part(&mut parts, "a=0x", &hex_padded(a as u64, 2));
    }
    let ghost p3 = views(parts@);
    assert(p3 =~= p2 + opt_part("a=0x"@, hex_opt(o.a)));
    push_decimal_part(&mut parts, "b=", o.b);
    push_decimal_part(&mut parts, "s=", o.s);
    let ghost p5 = views(parts@);
    if let Some(k) = o.k {
        push_part(&mut parts, "k=", &decimal(k as u64));
    }
    let ghost p6 = views(parts@);
    assert(p6 =~= p5 + opt_part("k="@, wide_opt(o.k)));
    push_decimal_part(&mut parts, "q=", o.q);
    assert(views(parts@) =~= operand_parts(o));
    join_with_spaces(&parts)
}

/// `0x<address, 6 hex digits>: <mnemonic> (opcode=0x<4 hex digits>` with
/// ` next=0x<4 hex digits>` for a second word, `)`, then the operands
/// after a space when there are any.
pub open spec fn spec_format_instruction(i: DecodedInstruction) -> Seq<char> {
    let head = "0x"@ + spec_hex_padded(i.address as nat, 6) + ": "@ + i.mnemonic@ + " (opcode=0x"@
        + spec_hex_padded(i.opcode as nat, 4) + match i.next_word {
        Some(w) => " next=0x"@ + spec_hex_padded(w as nat, 4),
        None => Seq::empty(),
    } + ")"@;
    let ops = join_spaced(operand_parts(i.operands));
    if ops.len() == 0 {
        head
    } else {
        head + " "@ + ops
    }
}

pub fn format_instruction(instruction: &DecodedInstruction) -> (r: String)
    ensures
        r@ == spec_format_instruction(*instruction),
{
    let address = string_of(&hex_padded(instruction.address as u64, 6));
    let opcode = string_of(&hex_padded(instruction.opcode as u64, 4));
    let mut rendered = concat2("0x", address.as_str());
    rendered.append(": ");
    rendered.append(instruction.mnemonic.as_str());
    rendered.append(" (opcode=0x");
    rendered.append(opcode.as_str());
    let ghost before_next = rendered@;
    if let Some(next_word) = instruction.next_word {
        let word = string_of(&hex_padded(next_word as u64, 4));
        rendered.append(" next=0x");
        rendered.append(word.as_str());
    }
    proof {
        reveal_strlit("");
        assert(instruction.next_word is None ==> rendered@ =~= before_next + Seq::<char>::empty());
    }
    rendered.append(")");
    let operand_text = format_operands(instruction);
    if chars_of(operand_text.as_str()).len() > 0 {
        rendered.append(" ");
        rendered.append(operand_text.as_str());
    }
    rendered
}

// ---------------------------------------------------------------------------
// Pacing a run to wall time, and publishing snapshots
// ---------------------------------------------------------------------------

/// How often the worker publishes a snapshot when nothing forces it.
pub const SNAPSHOT_INTERVAL_MS: u64 = 33;

/// The longest the worker sleeps at once to let wall time catch up.
pub const MAX_PACING_SLEEP_NS: u64 = 8_000_000;

/// The wall time `cycles` take at `clock_hz`, in nanoseconds.
pub open spec fn cycles_ns(cycles: u64, clock_hz: u32) -> int {
    if cycles == 0 || clock_hz == 0 {
        0
    } else {
        (cycles as int / clock_hz as int) * 1_000_000_000 + ((cycles as int % clock_hz as int)
            * 1_000_000_000) / clock_hz as int
    }
}

/// The sleep that lets wall time catch up with the simulated time since the
/// anchor, at most `MAX_PACING_SLEEP_NS`; none when wall time is ahead.
pub open spec fn pacing_sleep(anchor: RunPacingAnchor, synced_cycles: u64, clock_hz: u32, now_ns: u64) -> int {
    let simulated = if synced_cycles >= anchor.synced_cycles_started {
        synced_cycles - anchor.synced_cycles_started
    } else {
        0
    };
    let target = cycles_ns(simulated as u64, clock_hz);
    let actual = if now_ns >= anchor.wall_started_ns {
        now_ns - anchor.wall_started_ns
    } else {
        0
    };
    if target > actual {
        if target - actual < MAX_PACING_SLEEP_NS {
            target - actual
        } else {
            MAX_PACING_SLEEP_NS as int
        }
    } else {
        0
    }
}

impl WorkerState {
    /// Paces a running firmware to wall time at `now_ns`: `runtime` gives
    /// its synced cycles and clock, when one is loaded. The first call of a
    /// run anchors it; each call returns how long to sleep, in nanoseconds.
    /// Without a runtime, or when not running, the anchor is dropped.
    pub fn pace_running_runtime(&mut self, runtime: Option<(u64, u32)>, now_ns: u64) -> (sleep_ns: u64)
        ensures
            same_but_pacing(*old(self), *final(self)),
            final(self).status == old(self).status,
            final(self).status_message == old(self).status_message,
            match runtime {
                None => final(self).run_pacing_anchor is None && sleep_ns == 0,
                Some((synced, clock_hz)) => if old(self).status != SimulatorStatus::Running {
                    final(self).run_pacing_anchor is None && sleep_ns == 0
                } else {
                    let anchor = match old(self).run_pacing_anchor {
                        Some(a) => a,
                        None => RunPacingAnchor { wall_started_ns: now_ns, synced_cycles_started: synced },
                    };
                    &&& final(self).run_pacing_anchor == Some(anchor)
                    &&& sleep_ns == pacing_sleep(anchor, synced, clock_hz, now_ns)
                },
            },
    {
        let (synced, clock_hz) = match runtime {
            None => {
                self.run_pacing_anchor = None;
                return 0;
            },
            Some(values) => values,
        };
        if self.status != SimulatorStatus::Running {
            self.run_pacing_anchor = None;
            return 0;
        }
        let anchor = match self.run_pacing_anchor {
            Some(a) => a,
            None => RunPacingAnchor { wall_started_ns: now_ns, synced_cycles_started: synced },
        };
        self.run_pacing_anchor = Some(anchor);
        let simulated = if synced >= anchor.synced_cycles_started {
            synced - anchor.synced_cycles_started
        } else {
            0
        };
        let (seconds, nanos) = duration_for_cycles(simulated, clock_hz);
        let target: u128 = (seconds as u128) * 1_000_000_000 + (nanos as u128);
        let actual: u128 = if now_ns >= anchor.wall_started_ns {
            (now_ns - anchor.wall_started_ns) as u128
        } else {
            0
        };
        if target > actual {
            let remaining = target - actual;
            if remaining < MAX_PACING_SLEEP_NS as u128 {
                remaining as u64
            } else {
                MAX_PACING_SLEEP_NS
            }
        } else {
            0
        }
    }
}

/// `b` is `a` with at most its status, status message and pacing anchor
/// changed.
pub open spec fn same_but_pacing(a: WorkerState, b: WorkerState) -> bool {
    &&& b.loaded_board == a.loaded_board
    &&& b.source_path == a.source_path
    &&& b.firmware_path == a.firmware_path
    &&& b.compile_log == a.compile_log
    &&& b.pending_serial == a.pending_serial
    &&& b.last_host_pin_levels == a.last_host_pin_levels
    &&& b.host_pin_activity_until == a.host_pin_activity_until
}

/// Whether the worker publishes a snapshot now: when something changed, or
/// when `SNAPSHOT_INTERVAL_MS` have passed since the last one.
pub fn should_publish(dirty: bool, since_last_publish_ms: u64) -> (r: bool)
    ensures
        r == (dirty || since_last_publish_ms >= SNAPSHOT_INTERVAL_MS),
{
    dirty || since_last_publish_ms >= SNAPSHOT_INTERVAL_MS
}

impl SharedSimulationState {
    /// Publishes a snapshot under the next sequence number.
    pub fn publish(&mut self, snapshot: SimulationSnapshot)
        ensures
            final(self).sequence == (if old(self).sequence == u64::MAX {
                0
            } else {
                old(self).sequence + 1
            }),
            final(self).snapshot == snapshot,
    {
        self.sequence = self.sequence.wrapping_add(1);
        self.snapshot = snapshot;
    }
}

// ---------------------------------------------------------------------------
// Snapshots of a running firmware
// ---------------------------------------------------------------------------

pub open spec fn spec_bool_text(b: bool) -> Seq<char> {
    if b {
        "true"@
    } else {
        "false"@
    }
}

/// Decimal spelling of a signed number.
pub open spec fn spec_signed_decimal(n: int) -> Seq<char> {
    if n < 0 {
        "-"@ + spec_decimal((-n) as nat)
    } else {
        spec_decimal(n as nat)
    }
}

fn bool_text(b: bool) -> (r: &'static str)
    ensures
        r@ == spec_bool_text(b),
{
    if b {
        "true"
    } else {
        "false"
    }
}

fn signed_decimal(n: i64) -> (r: Vec<char>)
    ensures
        r@ == spec_signed_decimal(n as int),
{
    if n < 0 {
        let magnitude: u64 = (0i128 - n as i128) as u64;
        let mut r = chars_of("-");
        let digits = decimal(magnitude);
        push_all(&mut r, &digits);
        r
    } else {
        decimal(n as u64)
    }
}

/// The status line of timer 0 and USART0.
pub fn timer_serial_status_line(
    timer_pending: bool,
    timer_remainder: u32,
    tx_busy: bool,
    tx_cycles_remaining: i64,
    rx_queued: usize,
) -> (r: String)
    ensures
        r@ == "Timer0: pending="@ + spec_bool_text(timer_pending) + " rem="@ + spec_decimal(
            timer_remainder as nat,
        ) + " | USART0: tx_busy="@ + spec_bool_text(tx_busy) + " tx_cycles="@ + spec_signed_decimal(
            tx_cycles_remaining as int,
        ) + " rx_queue="@ + spec_decimal(rx_queued as nat),
{
    let mut text = chars_of("Timer0: pending=");
    push_str(&mut text, bool_text(timer_pending));
    push_str(&mut text, " rem=");
    push_all(&mut text, &decimal(timer_remainder as u64));
    push_str(&mut text, " | USART0: tx_busy=");
    push_str(&mut text, bool_text(tx_busy));
    push_str(&mut text, " tx_cycles=");
    push_all(&mut text, &signed_decimal(tx_cycles_remaining));
    push_str(&mut text, " rx_queue=");
    push_all(&mut text, &decimal(rx_queued as u64));
    string_of(&text)
}

/// The status line of the ATmega328P's SPI and TWI.
pub fn nano_bus_status_line(
    spi_active: bool,
    twi_active: bool,
    twi_irq: bool,
    twi_address: Option<u8>,
    twi_read_mode: bool,
) -> (r: String)
    ensures
        r@ == "SPI: active="@ + spec_bool_text(spi_active) + " | TWI: active="@ + spec_bool_text(
            twi_active,
        ) + " irq="@ + spec_bool_text(twi_irq) + " addr="@ + match twi_address {
            Some(a) => "0x"@ + spec_hex_padded(a as nat, 2),
            None => "--"@,
        } + " mode="@ + if twi_read_mode {
            "read"@
        } else {
            "write"@
        },
{
    let mut text = chars_of("SPI: active=");
    push_str(&mut text, bool_text(spi_active));
    push_str(&mut text, " | TWI: active=");
    push_str(&mut text, bool_text(twi_active));
    push_str(&mut text, " irq=");
    push_str(&mut text, bool_text(twi_irq));
    push_str(&mut text, " addr=");
    match twi_address {
        Some(a) => {
            push_str(&mut text, "0x");
            push_all(&mut text, &hex_padded(a as u64, 2));
        },
        None => {
            push_str(&mut text, "--");
        },
    }
    push_str(&mut text, " mode=");
    push_str(&mut text, if twi_read_mode { "read" } else { "write" });
    string_of(&text)
}

/// The status line of the ATmega2560's ADC, its two SPI chip selects and
/// its EEPROM.
pub fn mega_bus_status_line(
    adc_pending: bool,
    adc_remaining: i64,
    spi_can: bool,
    spi_rtd: bool,
    eeprom_len: usize,
) -> (r: String)
    ensures
        r@ == "ADC: pending="@ + spec_bool_text(adc_pending) + " rem="@ + spec_signed_decimal(
            adc_remaining as int,
        ) + " | SPI CAN: "@ + spec_bool_text(spi_can) + " | SPI RTD: "@ + spec_bool_text(spi_rtd)
            + " | EEPROM: "@ + spec_decimal(eeprom_len as nat) + " bytes"@,
{
    let mut text = chars_of("ADC: pending=");
    push_str(&mut text, bool_text(adc_pending));
    push_str(&mut text, " rem=");
    push_all(&mut text, &signed_decimal(adc_remaining));
    push_str(&mut text, " | SPI CAN: ");
    push_str(&mut text, bool_text(spi_can));
    push_str(&mut text, " | SPI RTD: ");
    push_str(&mut text, bool_text(spi_rtd));
    push_str(&mut text, " | EEPROM: ");
    push_all(&mut text, &decimal(eeprom_len as u64));
    push_str(&mut text, " bytes");
    string_of(&text)
}

/// What the CPU core shows of a running firmware: its first 32 data bytes
/// (the registers), program counter, stack pointer, cycle count, status
/// register and the instruction at the program counter (or why it does not
/// decode).
pub struct CoreState {
    pub registers: Vec<u8>,
    pub pc: u32,
    pub sp: u16,
    pub cycles: u64,
    pub sreg: u8,
    pub next_instruction: Result<DecodedInstruction, String>,
}

/// The text of the next instruction, or of why it does not decode.
pub open spec fn spec_next_instruction_text(d: Result<DecodedInstruction, String>) -> Seq<char> {
    match d {
        Ok(i) => spec_format_instruction(i),
        Err(e) => "<decode error: "@ + e@ + ">"@,
    }
}

/// The snapshot of a running firmware: the worker's board, paths, status,
/// message and compile log; the core's state; the serial console (its
/// output, configured baud and queued input); the bus's extra status lines,
/// synced cycles and host pin levels; and the recent pin activity.
pub fn capture_runtime_snapshot(
    board: HostBoard,
    source_path: Option<String>,
    firmware_path: Option<String>,
    status: SimulatorStatus,
    status_message: String,
    compile_log: String,
    core: CoreState,
    serial_bytes: &[u8],
    serial_configured_baud: u32,
    serial_rx_queued: usize,
    extra_lines: Vec<String>,
    synced_cycles: u64,
    host_pin_levels: Vec<BoardPinLevel>,
    host_pin_recent_activity: Vec<BoardPinLevel>,
) -> (r: SimulationSnapshot)
    requires
        core.registers@.len() >= 32,
    ensures
        r.board == board,
        r.status == status,
        r.source_path == source_path,
        r.firmware_path == firmware_path,
        r.status_message == status_message,
        r.compile_log == compile_log,
        r.serial_text@ == drop_carriage_returns(utf8_lossy(serial_tail(serial_bytes@))),
        r.serial_bytes == serial_bytes@.len(),
        r.serial_configured_baud == serial_configured_baud,
        r.serial_rx_queued == serial_rx_queued,
        r.pc == core.pc,
        r.sp == core.sp,
        r.cycles == core.cycles,
        r.synced_cycles == synced_cycles,
        r.sreg == core.sreg,
        r.next_instruction@ == spec_next_instruction_text(core.next_instruction),
        r.registers@ == core.registers@.take(32),
        r.extra_lines == extra_lines,
        r.host_pin_levels == host_pin_levels,
        r.host_pin_recent_activity == host_pin_recent_activity,
{
    let mut registers: Vec<u8> = Vec::new();
    let mut i: usize = 0;
    while i < 32
        invariant
            core.registers@.len() >= 32,
            i <= 32,
            registers@ == core.registers@.take(i as int),
        decreases 32 - i,
    {
        registers.push(core.registers[i]);
        assert(registers@ =~= core.registers@.take(i + 1));
        i = i + 1;
    }
    let next_instruction = match &core.next_instruction {
        Ok(decoded) => format_instruction(decoded),
        Err(error) => {
            let mut text = chars_of("<decode error: ");
            push_str(&mut text, error.as_str());
            push_str(&mut text, ">");
            string_of(&text)
        },
    };
    SimulationSnapshot {
        board,
        status,
        source_path,
        firmware_path,
        status_message,
        compile_log,
        serial_text: serial_text(serial_bytes),
        serial_bytes: serial_bytes.len(),
        serial_configured_baud,
        serial_rx_queued,
        pc: core.pc,
        sp: core.sp,
        cycles: core.cycles,
        synced_cycles,
        sreg: core.sreg,
        next_instruction,
        registers,
        extra_lines,
        host_pin_levels,
        host_pin_recent_activity,
    }
}


/// What the window asks of the simulator worker.
pub enum WorkerCommand {
    LoadHex { path: String, board: HostBoard },
    CompileAndLoad { path: String, board: HostBoard },
    Run,
    Pause,
    Step,
    Reset,
    ClearSerial,
    InjectSerial { payload: Vec<u8>, baud: u32 },
    Shutdown,
}

/// What the worker loop does next with the runtime, after a command.
pub enum WorkerAction {
    Nothing,
    /// Load the HEX image at `path` for `board` (the sketch it came from,
    /// if any, is `source_path`) and take in the outcome with
    /// `load_runtime_from_hex`.
    LoadHex { path: String, board: HostBoard, source_path: Option<String> },
    /// Publish the snapshot, compile the sketch at `path` for `board`, then
    /// load the image or record the failure with `compile_failed`.
    Compile { path: String, board: HostBoard },
    /// Run one instruction and record it with `finish_step`.
    StepOnce,
    /// Clear the runtime's serial output.
    ClearSerialOutput,
    /// Publish the snapshot and end the loop.
    Stop,
}

/// `b` is `a` with only the run pacing given up.
pub open spec fn same_but_unpaced(a: WorkerState, b: WorkerState) -> bool {
    &&& b.loaded_board == a.loaded_board
    &&& b.source_path == a.source_path
    &&& b.firmware_path == a.firmware_path
    &&& b.compile_log == a.compile_log
    &&& b.status == a.status
    &&& b.status_message == a.status_message
    &&& b.pending_serial == a.pending_serial
    &&& b.last_host_pin_levels == a.last_host_pin_levels
    &&& b.host_pin_activity_until == a.host_pin_activity_until
    &&& b.run_pacing_anchor is None
}

impl WorkerState {
    /// Takes one command from the window. `runtime` is the loaded firmware's
    /// clock and cycle count, if firmware is loaded. Returns what the loop
    /// does next and whether the snapshot needs publishing. A reset reloads
    /// the last image only when one was loaded; empty serial input is
    /// ignored; running, pausing, stepping and clearing need firmware.
    pub fn handle_command(&mut self, command: WorkerCommand, runtime: Option<(u32, u64)>) -> (r: (WorkerAction, bool))
        ensures
            match command {
                WorkerCommand::LoadHex { path, board } => {
                    &&& same_but_unpaced(*old(self), *final(self))
                    &&& r.1
                    &&& r.0 matches WorkerAction::LoadHex { path: p, board: b, source_path: sp }
                        && p@ == path@ && b == board && sp is None
                },
                WorkerCommand::CompileAndLoad { path, board } => {
                    &&& final(self).loaded_board == board
                    &&& opt_str_view(final(self).source_path) == Some(path@)
                    &&& final(self).status == SimulatorStatus::Compiling
                    &&& final(self).status_message@ == "Compiling "@ + path@ + " for "@
                        + spec_host_board_label(board)
                    &&& final(self).firmware_path == old(self).firmware_path
                    &&& final(self).compile_log == old(self).compile_log
                    &&& final(self).pending_serial == old(self).pending_serial
                    &&& final(self).run_pacing_anchor is None
                    &&& r.1
                    &&& r.0 matches WorkerAction::Compile { path: p, board: b } && p@ == path@ && b == board
                },
                WorkerCommand::Run => {
                    let go = runtime is Some && can_run_from(old(self).status);
                    &&& r.0 is Nothing && r.1 == go
                    &&& go ==> {
                        &&& final(self).status == SimulatorStatus::Running
                        &&& final(self).status_message@ == "Running firmware"@
                        &&& final(self).run_pacing_anchor is None
                        &&& final(self).pending_serial == old(self).pending_serial
                        &&& final(self).firmware_path == old(self).firmware_path
                    }
                    &&& !go ==> *final(self) == *old(self)
                },
                WorkerCommand::Pause => {
                    let stop = runtime is Some && old(self).status == SimulatorStatus::Running;
                    &&& r.0 is Nothing && r.1 == stop
                    &&& stop ==> {
                        &&& final(self).status == SimulatorStatus::Paused
                        &&& final(self).status_message@ == "Execution paused"@
                        &&& final(self).run_pacing_anchor is None
                        &&& final(self).pending_serial == old(self).pending_serial
                        &&& final(self).firmware_path == old(self).firmware_path
                    }
                    &&& !stop ==> *final(self) == *old(self)
                },
                WorkerCommand::Step => if runtime is Some {
                    same_but_unpaced(*old(self), *final(self)) && r.0 is StepOnce && r.1
                } else {
                    *final(self) == *old(self) && r.0 is Nothing && !r.1
                },
                WorkerCommand::Reset => match old(self).firmware_path {
                    Some(f) => {
                        &&& same_but_unpaced(*old(self), *final(self))
                        &&& r.1
                        &&& r.0 matches WorkerAction::LoadHex { path: p, board: b, source_path: sp }
                            && p@ == f@ && b == old(self).loaded_board && opt_str_view(sp)
                            == opt_str_view(old(self).source_path)
                    },
                    None => *final(self) == *old(self) && r.0 is Nothing && !r.1,
                },
                WorkerCommand::ClearSerial => if runtime is Some {
                    &&& same_but_status(*old(self), *final(self))
                    &&& final(self).status == old(self).status
                    &&& final(self).status_message@ == "Cleared serial output"@
                    &&& r.0 is ClearSerialOutput && r.1
                } else {
                    *final(self) == *old(self) && r.0 is Nothing && !r.1
                },
                WorkerCommand::InjectSerial { payload, baud } => {
                    let queued = runtime is Some && payload@.len() > 0;
                    &&& r.0 is Nothing && r.1 == queued
                    &&& !queued ==> *final(self) == *old(self)
                    &&& queued ==> {
                        &&& qview(final(self).pending_serial@) == qview(old(self).pending_serial@).push(
                            (
                                payload@,
                                spec_cycles_per_byte(runtime.unwrap().0, baud) as u64,
                                runtime.unwrap().1,
                            ),
                        )
                        &&& final(self).status_message@ == "Queued serial input at "@ + spec_decimal(
                            baud as nat,
                        ) + " baud"@
                        &&& final(self).status == old(self).status
                        &&& final(self).firmware_path == old(self).firmware_path
                    }
                },
                WorkerCommand::Shutdown => *final(self) == *old(self) && r.0 is Stop && r.1,
            },
    {
        match command {
            WorkerCommand::LoadHex { path, board } => {
                self.run_pacing_anchor = None;
                (WorkerAction::LoadHex { path, board, source_path: None }, true)
            },
            WorkerCommand::CompileAndLoad { path, board } => {
                self.begin_compile(path.as_str(), board);
                self.run_pacing_anchor = None;
                (WorkerAction::Compile { path, board }, true)
            },
            WorkerCommand::Run => {
                let changed = self.request_run(runtime.is_some());
                if changed {
                    self.run_pacing_anchor = None;
                }
                (WorkerAction::Nothing, changed)
            },
            WorkerCommand::Pause => {
                let changed = self.request_pause(runtime.is_some());
                if changed {
                    self.run_pacing_anchor = None;
                }
                (WorkerAction::Nothing, changed)
            },
            WorkerCommand::Step => {
                if runtime.is_some() {
                    self.run_pacing_anchor = None;
                    (WorkerAction::StepOnce, true)
                } else {
                    (WorkerAction::Nothing, false)
                }
            },
            WorkerCommand::Reset => {
                match &self.firmware_path {
                    Some(f) => {
                        let path = f.clone();
                        let source_path = match &self.source_path {
                            Some(s) => Some(s.clone()),
                            None => None,
                        };
                        self.run_pacing_anchor = None;
                        (WorkerAction::LoadHex { path, board: self.loaded_board, source_path }, true)
                    },
                    None => (WorkerAction::Nothing, false),
                }
            },
            WorkerCommand::ClearSerial => {
                if runtime.is_some() {
                    self.note_serial_cleared();
                    (WorkerAction::ClearSerialOutput, true)
                } else {
                    (WorkerAction::Nothing, false)
                }
            },
            WorkerCommand::InjectSerial { payload, baud } => {
                let (clock_hz, cycles) = match runtime {
                    Some(r) => r,
                    None => (0u32, 0u64),
                };
                let queued = self.queue_serial(runtime.is_some(), payload.as_slice(), baud, clock_hz, cycles);
                (WorkerAction::Nothing, queued)
            },
            WorkerCommand::Shutdown => (WorkerAction::Stop, true),
        }
    }
}

} // verus!

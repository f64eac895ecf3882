# avrsim

A verified core for a simulator of Arduino boards (ATmega328P Nano and
ATmega2560 Mega) wired to KiCad PCBs. The library is written in Verus: each
function states what it does in `requires`/`ensures`, and Verus proves it.

## Layout

- `src/text.rs` — character-level string helpers, decimal spelling, the
  code-point order of strings.
- `src/mcu/` — the memory-mapped peripherals of the two MCUs (ports, timer 0,
  USART0, SPI, TWI, ADC, EEPROM) as data buses, and the boards behind them.
- `src/project/` — the project documents (simulation projects, board, module
  and assembly definitions, bundles, behaviors), their validation rules,
  lexical path handling with saving and loading relative paths, and the
  heuristics that bind host-board signals to PCB nets.
- `src/kicad.rs` — the KiCad adapter's command line and project generation.
- `src/gui/` — the desktop tools' decisions: the simulator worker's state
  machine, serial pacing, snapshots, sketch compilation plans, the main
  window's wiring and state, the PCB view's net summaries, and the board
  editor's rules and state.
- `app/` — the KiCad adapter program: argument handling, files, JSON for
  every document kind (projects, board, module and assembly definitions,
  board assembly files, behaviors), the board models, running
  `arduino-cli`, and launching the simulator window.
- `tests/` — tests of the library on concrete values.

The laws the library keeps are public proof functions named `law_*`, next to
the functions they are about.

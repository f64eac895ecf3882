//! The decisions behind the desktop tools: simulator status, pacing and
//! snapshots, compiling sketches, start-up arguments, what the PCB view
//! knows of a board, the wiring and state of the main window, and the board
//! editor's rules and state.

pub mod simulation;
pub mod arduino;
pub mod startup;
pub mod pcb_view;
pub mod app;
pub mod wiring;
pub mod window;
pub mod board_editor;
pub mod board_editor_state;
pub mod board_editor_edits;

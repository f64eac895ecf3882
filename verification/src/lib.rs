//! Verified core of the AVR board simulator: MCU peripheral models, the
//! project document model and its validation rules, host-pin auto-binding
//! heuristics, lexical path handling and the helpers behind the desktop tools.

pub mod text;
pub mod mcu;
pub mod project;
pub mod kicad;
pub mod gui;

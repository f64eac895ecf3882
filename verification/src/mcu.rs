//! Peripheral models of the ATmega328P (Arduino Nano) and ATmega2560
//! (Arduino Mega) memory-mapped I/O space.

pub mod common;
pub mod atmega328p;
pub mod atmega2560;

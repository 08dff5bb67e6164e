//! MIDI message handling: transport bytes, parsing, routing, clock, ports
//! and the engine state machine.
pub mod transport;
pub mod router;
pub mod clock;
pub mod port_manager;
pub mod engine;

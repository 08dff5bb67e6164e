//! Routing and clock engine for MIDI 1.0 byte streams.
//!
//! The library holds the decisions of the engine: message classification,
//! channel filtering, control-change remapping, the 24-pulse clock schedule,
//! the set of ports that the routes need, and the engine's reaction to each
//! command and inbound packet. Talking to the operating system's MIDI layer
//! is left to the caller.
pub mod types;
pub mod midi;
pub mod route_list;

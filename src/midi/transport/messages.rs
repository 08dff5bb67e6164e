//! MIDI system real-time message bytes.
use vstd::prelude::*;

verus! {

/// Timing Clock, sent 24 times per quarter note.
pub const CLOCK: u8 = 0xF8;

/// Start playback from the beginning.
pub const START: u8 = 0xFA;

/// Continue playback from the current position.
pub const CONTINUE: u8 = 0xFB;

/// Stop playback.
pub const STOP: u8 = 0xFC;

} // verus!

//! Transport messages (Start, Continue, Stop) and the timing clock.
//!
//! Classification looks at the first byte of a packet only.
use vstd::prelude::*;

pub mod messages;

verus! {

/// Types of MIDI transport messages.
#[derive(Debug, Clone, Copy, PartialEq, Eq, Structural)]
pub enum TransportMessage {
    Start,
    Continue,
    Stop,
    Clock,
}

/// The transport message that a status byte stands for, if any.
pub open spec fn transport_of(status: u8) -> Option<TransportMessage> {
    if status == 0xFA {
        Some(TransportMessage::Start)
    } else if status == 0xFB {
        Some(TransportMessage::Continue)
    } else if status == 0xFC {
        Some(TransportMessage::Stop)
    } else if status == 0xF8 {
        Some(TransportMessage::Clock)
    } else {
        None
    }
}

/// The transport message that a packet starts with, if any.
pub open spec fn transport_of_packet(bytes: Seq<u8>) -> Option<TransportMessage> {
    if bytes.len() == 0 {
        None
    } else {
        transport_of(bytes[0])
    }
}

impl TransportMessage {
    /// The status byte of the message.
    pub open spec fn byte(self) -> u8 {
        match self {
            TransportMessage::Start => 0xFA,
            TransportMessage::Continue => 0xFB,
            TransportMessage::Stop => 0xFC,
            TransportMessage::Clock => 0xF8,
        }
    }

    /// Get the MIDI byte for this transport message.
    pub fn as_byte(&self) -> (r: u8)
        ensures
            r == self.byte(),
            transport_of(r) == Some(*self),
    {
        match self {
            TransportMessage::Start => messages::START,
            TransportMessage::Continue => messages::CONTINUE,
            TransportMessage::Stop => messages::STOP,
            TransportMessage::Clock => messages::CLOCK,
        }
    }

    /// The message as a one-byte packet, ready to be sent.
    pub fn as_bytes(&self) -> (r: Vec<u8>)
        ensures
            r@ == seq![self.byte()],
    {
        let b = self.as_byte();
        let mut v: Vec<u8> = Vec::new();
        v.push(b);
        v
    }
}

/// Check whether a packet is a transport message (Start, Stop, Continue or
/// Clock).
pub fn is_transport_message(bytes: &[u8]) -> (r: bool)
    ensures
        r == transport_of_packet(bytes@).is_some(),
{
    if bytes.len() == 0 {
        return false;
    }
    let b = bytes[0];
    b == messages::CLOCK || b == messages::START || b == messages::CONTINUE || b == messages::STOP
}

/// Get the transport message that a packet starts with.
pub fn get_transport_type(bytes: &[u8]) -> (r: Option<TransportMessage>)
    ensures
        r == transport_of_packet(bytes@),
{
    if bytes.len() == 0 {
        return None;
    }
    let b = bytes[0];
    if b == messages::START {
        Some(TransportMessage::Start)
    } else if b == messages::CONTINUE {
        Some(TransportMessage::Continue)
    } else if b == messages::STOP {
        Some(TransportMessage::Stop)
    } else if b == messages::CLOCK {
        Some(TransportMessage::Clock)
    } else {
        None
    }
}

} // verus!

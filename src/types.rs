//! Validated values and the records that routes and events are built from.
use vstd::prelude::*;

verus! {

/// Identifier of a route, generated at random.
#[verifier::external_type_specification]
#[verifier::external_body]
pub struct ExUuid(uuid::Uuid);

/// Relies on uuid::Uuid::new_v4: a random version-4 identifier; nothing is
/// promised of its value.
pub assume_specification[ uuid::Uuid::new_v4 ]() -> uuid::Uuid;

/// Relies on the derived `Clone` of uuid::Uuid, a `Copy` type: the clone is
/// the same identifier.
pub assume_specification[ <uuid::Uuid as core::clone::Clone>::clone ](u: &uuid::Uuid) -> (r:
    uuid::Uuid)
    ensures
        r == *u,
;

/// A value that lies outside the range that its type admits.
///
/// Tempo values are given in thousandths of a beat per minute.
#[derive(Debug, Clone, Copy, PartialEq, Eq, Structural)]
pub enum ValidationError {
    BpmOutOfRange { value: u64, min: u64, max: u64 },
    CcOutOfRange { value: u8, max: u8 },
    ChannelOutOfRange { value: u8, max: u8 },
}

/// Errors that the engine reports to its observers.
#[derive(Debug, Clone)]
pub enum EngineError {
    /// Opening a port failed.
    PortConnectionFailed { port_name: String, reason: String },
    /// A port disappeared.
    PortDisconnected { port_name: String },
    /// Sending to a port failed.
    SendFailed { port_name: String, reason: String },
    /// A configuration value was rejected.
    ValidationFailed(ValidationError),
}

impl From<ValidationError> for EngineError {
    fn from(err: ValidationError) -> (r: EngineError)
        ensures
            r == EngineError::ValidationFailed(err),
    {
        EngineError::ValidationFailed(err)
    }
}

impl vstd::std_specs::convert::FromSpecImpl<ValidationError> for EngineError {
    open spec fn obeys_from_spec() -> bool {
        true
    }

    open spec fn from_spec(err: ValidationError) -> EngineError {
        EngineError::ValidationFailed(err)
    }
}


/// Tempo in thousandths of a beat per minute, within `MIN..=MAX`.
#[derive(Debug, Clone, Copy, PartialEq, Eq, Structural)]
pub struct Bpm(u64);

/// `value` limited to `lo..=hi`.
pub open spec fn clamp_spec(value: u64, lo: u64, hi: u64) -> u64 {
    if value < lo {
        lo
    } else if value > hi {
        hi
    } else {
        value
    }
}

impl Bpm {
    /// 20 beats per minute.
    pub const MIN: u64 = 20_000;

    /// 300 beats per minute.
    pub const MAX: u64 = 300_000;

    /// 120 beats per minute.
    pub const DEFAULT: u64 = 120_000;

    pub closed spec fn view(self) -> u64 {
        self.0
    }

    #[verifier::type_invariant]
    closed spec fn in_range(self) -> bool {
        Self::MIN <= self.0 <= Self::MAX
    }

    /// Accept a tempo that lies within the range, reject any other.
    pub fn new(value: u64) -> (r: Result<Bpm, ValidationError>)
        ensures
            r is Ok <==> Self::MIN <= value <= Self::MAX,
            r matches Ok(b) ==> b@ == value,
            r matches Err(e) ==> e == (ValidationError::BpmOutOfRange {
                value,
                min: Self::MIN,
                max: Self::MAX,
            }),
    {
        if value < Self::MIN || value > Self::MAX {
            Err(ValidationError::BpmOutOfRange { value, min: Self::MIN, max: Self::MAX })
        } else {
            Ok(Bpm(value))
        }
    }

    /// Create a tempo, clamping the value into the range.
    pub fn clamped(value: u64) -> (r: Bpm)
        ensures
            r@ == clamp_spec(value, Self::MIN, Self::MAX),
    {
        if value < Self::MIN {
            Bpm(Self::MIN)
        } else if value > Self::MAX {
            Bpm(Self::MAX)
        } else {
            Bpm(value)
        }
    }

    /// The tempo in thousandths of a beat per minute.
    pub fn value(&self) -> (r: u64)
        ensures
            r == self@,
            Self::MIN <= r <= Self::MAX,
    {
        proof {
            use_type_invariant(self);
        }
        self.0
    }
}

impl Default for Bpm {
    fn default() -> (r: Bpm)
        ensures
            r@ == Self::DEFAULT,
    {
        Bpm(Self::DEFAULT)
    }
}

/// MIDI Control Change number (0-127).
#[derive(Debug, Clone, Copy, PartialEq, Eq, Hash, Structural)]
pub struct CcNumber(u8);

impl CcNumber {
    pub const MAX: u8 = 127;

    pub closed spec fn view(self) -> u8 {
        self.0
    }

    #[verifier::type_invariant]
    closed spec fn in_range(self) -> bool {
        self.0 <= Self::MAX
    }

    /// Accept a controller number up to `MAX`.
    pub fn new(value: u8) -> (r: Result<CcNumber, ValidationError>)
        ensures
            r is Ok <==> value <= Self::MAX,
            r matches Ok(c) ==> c@ == value,
            r matches Err(e) ==> e == (ValidationError::CcOutOfRange { value, max: Self::MAX }),
    {
        if value > Self::MAX {
            Err(ValidationError::CcOutOfRange { value, max: Self::MAX })
        } else {
            Ok(CcNumber(value))
        }
    }

    pub fn value(&self) -> (r: u8)
        ensures
            r == self@,
            r <= Self::MAX,
    {
        proof {
            use_type_invariant(self);
        }
        self.0
    }
}

impl From<CcNumber> for u8 {
    fn from(cc: CcNumber) -> (r: u8)
        ensures
            r == cc@,
    {
        cc.0
    }
}

impl vstd::std_specs::convert::FromSpecImpl<CcNumber> for u8 {
    open spec fn obeys_from_spec() -> bool {
        true
    }

    open spec fn from_spec(cc: CcNumber) -> u8 {
        cc@
    }
}

/// MIDI channel, 0-15 on the wire and 1-16 when shown to people.
#[derive(Debug, Clone, Copy, PartialEq, Eq, Hash, Structural)]
pub struct Channel(u8);

impl Channel {
    pub const MAX: u8 = 15;

    pub closed spec fn view(self) -> u8 {
        self.0
    }

    #[verifier::type_invariant]
    closed spec fn in_range(self) -> bool {
        self.0 <= Self::MAX
    }

    /// Create from a 0-indexed channel (0-15).
    pub fn new(value: u8) -> (r: Result<Channel, ValidationError>)
        ensures
            r is Ok <==> value <= Self::MAX,
            r matches Ok(c) ==> c@ == value,
            r matches Err(e) ==> e == (ValidationError::ChannelOutOfRange {
                value,
                max: Self::MAX,
            }),
    {
        if value > Self::MAX {
            Err(ValidationError::ChannelOutOfRange { value, max: Self::MAX })
        } else {
            Ok(Channel(value))
        }
    }

    /// Create from a 1-indexed channel (1-16).
    pub fn from_one_indexed(value: u8) -> (r: Result<Channel, ValidationError>)
        ensures
            r is Ok <==> 1 <= value <= 16,
            r matches Ok(c) ==> c@ == value - 1,
            r matches Err(e) ==> e == (ValidationError::ChannelOutOfRange { value, max: 16 }),
    {
        if value == 0 || value > 16 {
            Err(ValidationError::ChannelOutOfRange { value, max: 16 })
        } else {
            Ok(Channel(value - 1))
        }
    }

    /// The 0-indexed value (0-15) used on the wire.
    pub fn value(&self) -> (r: u8)
        ensures
            r == self@,
            r <= Self::MAX,
    {
        proof {
            use_type_invariant(self);
        }
        self.0
    }

    /// The 1-indexed value (1-16) used for display.
    pub fn display_value(&self) -> (r: u8)
        ensures
            r == self@ + 1,
            1 <= r <= 16,
    {
        proof {
            use_type_invariant(self);
        }
        self.0 + 1
    }
}

impl From<Channel> for u8 {
    fn from(ch: Channel) -> (r: u8)
        ensures
            r == ch@,
    {
        ch.0
    }
}

impl vstd::std_specs::convert::FromSpecImpl<Channel> for u8 {
    open spec fn obeys_from_spec() -> bool {
        true
    }

    open spec fn from_spec(ch: Channel) -> u8 {
        ch@
    }
}

/// A port, named as the operating system names it.
#[derive(Debug, Clone)]
pub struct PortId {
    pub name: String,
    pub display_name: String,
}

impl PortId {
    pub fn new(name: String) -> (r: PortId)
        ensures
            r.name@ == name@,
            r.display_name@ == name@,
    {
        let display_name = name.clone();
        PortId { name, display_name }
    }
}

/// Which channels a route lets through. Channels are 0-indexed.
#[derive(Debug, Clone)]
pub enum ChannelFilter {
    All,
    Only(Vec<u8>),
    Except(Vec<u8>),
}

impl ChannelFilter {
    /// Whether the filter lets `channel` through.
    pub open spec fn allows(&self, channel: u8) -> bool {
        match self {
            ChannelFilter::All => true,
            ChannelFilter::Only(channels) => channels@.contains(channel),
            ChannelFilter::Except(channels) => !channels@.contains(channel),
        }
    }

    pub fn passes(&self, channel: u8) -> (r: bool)
        ensures
            r == self.allows(channel),
    {
        match self {
            ChannelFilter::All => true,
            ChannelFilter::Only(channels) => contains_byte(channels, channel),
            ChannelFilter::Except(channels) => !contains_byte(channels, channel),
        }
    }
}

impl Default for ChannelFilter {
    fn default() -> (r: ChannelFilter)
        ensures
            r is All,
    {
        ChannelFilter::All
    }
}

/// Whether `v` holds `x`.
fn contains_byte(v: &Vec<u8>, x: u8) -> (r: bool)
    ensures
        r == v@.contains(x),
{
    let mut i: usize = 0;
    while i < v.len()
        invariant
            0 <= i <= v.len(),
            forall|k: int| 0 <= k < i ==> v@[k] != x,
        decreases v.len() - i,
    {
        if v[i] == x {
            return true;
        }
        i += 1;
    }
    false
}

/// One destination of a control-change mapping: a controller number and the
/// channels, 1-indexed, that it goes out on.
#[derive(Debug, Clone)]
pub struct CcTarget {
    pub cc: u8,
    pub channels: Vec<u8>,
}

/// Control-change remapping: packets for `source_cc` go out to each target.
#[derive(Debug, Clone)]
pub struct CcMapping {
    pub source_cc: u8,
    pub targets: Vec<CcTarget>,
}

/// Forwarding policy from one input port to one output port.
#[derive(Debug, Clone)]
pub struct Route {
    pub id: uuid::Uuid,
    pub source: PortId,
    pub destination: PortId,
    pub enabled: bool,
    pub channels: ChannelFilter,
    pub cc_passthrough: bool,
    pub cc_mappings: Vec<CcMapping>,
}

impl Route {
    /// An enabled route from `source` to `destination` that lets every
    /// channel through and passes control changes unchanged.
    pub fn new(source: PortId, destination: PortId) -> (r: Route)
        ensures
            r.source == source,
            r.destination == destination,
            r.enabled,
            r.channels is All,
            r.cc_passthrough,
            r.cc_mappings@.len() == 0,
    {
        Route {
            id: uuid::Uuid::new_v4(),
            source,
            destination,
            enabled: true,
            channels: ChannelFilter::All,
            cc_passthrough: true,
            cc_mappings: Vec::new(),
        }
    }
}

impl Default for Route {
    /// An enabled route between two unnamed ports, with the defaults of
    /// `Route::new`.
    fn default() -> (r: Route)
        ensures
            r.source.name@.len() == 0,
            r.destination.name@.len() == 0,
            r.enabled,
            r.channels is All,
            r.cc_passthrough,
            r.cc_mappings@.len() == 0,
    {
        Route::new(PortId::new(String::new()), PortId::new(String::new()))
    }
}

/// A port as listed by the operating system.
#[derive(Debug, Clone)]
pub struct MidiPort {
    pub id: PortId,
    pub is_input: bool,
}

/// What a decoded packet is.
#[derive(Debug, Clone, Copy, PartialEq, Eq, Structural)]
pub enum MessageKind {
    NoteOn { note: u8, velocity: u8 },
    NoteOff { note: u8, velocity: u8 },
    ControlChange { controller: u8, value: u8 },
    ProgramChange { program: u8 },
    PitchBend { value: u16 },
    Aftertouch { value: u8 },
    PolyAftertouch { note: u8, value: u8 },
    SysEx,
    Clock,
    Start,
    Continue,
    Stop,
    Other,
}

/// A decoded inbound packet, as shown to observers.
#[derive(Debug, Clone)]
pub struct MidiActivity {
    pub timestamp: u64,
    pub port: String,
    pub channel: Option<u8>,
    pub kind: MessageKind,
    pub raw: Vec<u8>,
}

/// Observable state of the clock. `bpm` is in thousandths of a beat per
/// minute.
#[derive(Debug, Clone, Copy, PartialEq, Eq, Structural)]
pub struct ClockState {
    pub bpm: u64,
    pub running: bool,
}

} // verus!

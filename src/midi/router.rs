//! Decoding of inbound packets, channel filtering and control-change
//! remapping.
use vstd::prelude::*;
use vstd::slice::slice_to_vec;

use crate::types::{CcMapping, CcTarget, ChannelFilter, MessageKind, MidiActivity, Route};

verus! {

/// Count of data bytes that must follow a status byte other than 0xF0.
pub open spec fn data_len(status: u8) -> int {
    if 0xC0 <= status < 0xE0 {
        1
    } else if status < 0xF0 {
        2
    } else if status == 0xF1 || status == 0xF3 {
        1
    } else if status == 0xF2 {
        2
    } else {
        0
    }
}

/// A System Exclusive packet whose first status byte after the start is the
/// end byte 0xF7.
pub open spec fn sysex_complete(b: Seq<u8>) -> bool {
    exists|j: int|
        1 <= j < b.len() && b[j] == 0xF7 && forall|k: int| 1 <= k < j ==> b[k] < 0x80
}

/// A packet that starts with a status byte and carries the data bytes that
/// the status asks for.
pub open spec fn well_formed(b: Seq<u8>) -> bool {
    &&& b.len() > 0
    &&& b[0] >= 0x80
    &&& b[0] != 0xF7
    &&& if b[0] == 0xF0 {
        sysex_complete(b)
    } else {
        b.len() > data_len(b[0]) && forall|k: int| 1 <= k <= data_len(b[0]) ==> b[k] < 0x80
    }
}

/// Channel and kind of a well-formed packet; `None` for any other.
pub open spec fn decode(b: Seq<u8>) -> Option<(Option<u8>, MessageKind)> {
    if !well_formed(b) {
        None
    } else {
        let s = b[0];
        let ch = Some((s % 16) as u8);
        if s < 0x90 {
            Some((ch, MessageKind::NoteOff { note: b[1], velocity: b[2] }))
        } else if s < 0xA0 {
            if b[2] == 0 {
                Some((ch, MessageKind::NoteOff { note: b[1], velocity: 0 }))
            } else {
                Some((ch, MessageKind::NoteOn { note: b[1], velocity: b[2] }))
            }
        } else if s < 0xB0 {
            Some((ch, MessageKind::PolyAftertouch { note: b[1], value: b[2] }))
        } else if s < 0xC0 {
            Some((ch, MessageKind::ControlChange { controller: b[1], value: b[2] }))
        } else if s < 0xD0 {
            Some((ch, MessageKind::ProgramChange { program: b[1] }))
        } else if s < 0xE0 {
            Some((ch, MessageKind::Aftertouch { value: b[1] }))
        } else if s < 0xF0 {
            Some((ch, MessageKind::PitchBend { value: (b[1] + 128 * b[2]) as u16 }))
        } else if s == 0xF0 {
            Some((None, MessageKind::SysEx))
        } else if s == 0xF8 {
            Some((None, MessageKind::Clock))
        } else if s == 0xFA {
            Some((None, MessageKind::Start))
        } else if s == 0xFB {
            Some((None, MessageKind::Continue))
        } else if s == 0xFC {
            Some((None, MessageKind::Stop))
        } else {
            Some((None, MessageKind::Other))
        }
    }
}

/// Relies on wmidi's `MidiMessage::try_from(&[u8])`: it succeeds exactly on
/// packets that start with a status byte other than 0xF7 and hold the data
/// bytes (below 0x80) that the status asks for; a System Exclusive packet
/// must reach 0xF7 before any other status byte.
#[verifier::external_body]
fn wmidi_accepts(bytes: &[u8]) -> (r: bool)
    ensures
        r == well_formed(bytes@),
{
    wmidi::MidiMessage::try_from(bytes).is_ok()
}

/// Decode a packet into an activity record; `None` for a packet that is not
/// a well-formed MIDI message.
pub fn parse_midi_message(timestamp: u64, port: &str, bytes: &[u8]) -> (r: Option<MidiActivity>)
    ensures
        r is Some <==> decode(bytes@) is Some,
        r matches Some(a) ==> {
            &&& a.timestamp == timestamp
            &&& a.port@ == port@
            &&& a.raw@ == bytes@
            &&& (a.channel, a.kind) == decode(bytes@)->Some_0
        },
{
    if !wmidi_accepts(bytes) {
        return None;
    }
    let s = bytes[0];
    let ch = Some(s & 0x0F);
    assert(s & 0x0F == s % 16) by (bit_vector);
    let (channel, kind) = if s < 0x90 {
        (ch, MessageKind::NoteOff { note: bytes[1], velocity: bytes[2] })
    } else if s < 0xA0 {
        if bytes[2] == 0 {
            (ch, MessageKind::NoteOff { note: bytes[1], velocity: 0 })
        } else {
            (ch, MessageKind::NoteOn { note: bytes[1], velocity: bytes[2] })
        }
    } else if s < 0xB0 {
        (ch, MessageKind::PolyAftertouch { note: bytes[1], value: bytes[2] })
    } else if s < 0xC0 {
        (ch, MessageKind::ControlChange { controller: bytes[1], value: bytes[2] })
    } else if s < 0xD0 {
        (ch, MessageKind::ProgramChange { program: bytes[1] })
    } else if s < 0xE0 {
        (ch, MessageKind::Aftertouch { value: bytes[1] })
    } else if s < 0xF0 {
        (ch, MessageKind::PitchBend { value: bytes[1] as u16 + 128 * (bytes[2] as u16) })
    } else if s == 0xF0 {
        (None, MessageKind::SysEx)
    } else if s == 0xF8 {
        (None, MessageKind::Clock)
    } else if s == 0xFA {
        (None, MessageKind::Start)
    } else if s == 0xFB {
        (None, MessageKind::Continue)
    } else if s == 0xFC {
        (None, MessageKind::Stop)
    } else {
        (None, MessageKind::Other)
    };
    Some(MidiActivity {
        timestamp,
        port: port.to_owned(),
        channel,
        kind,
        raw: slice_to_vec(bytes),
    })
}

/// The channel of a channel message (status 0x80..0xEF); `None` for any
/// other packet.
pub open spec fn channel_of(bytes: Seq<u8>) -> Option<u8> {
    if bytes.len() > 0 && 0x80 <= bytes[0] < 0xF0 {
        Some((bytes[0] % 16) as u8)
    } else {
        None
    }
}

/// Whether a packet passes a channel filter: packets without a channel
/// always pass.
pub open spec fn passes_filter(bytes: Seq<u8>, filter: ChannelFilter) -> bool {
    match channel_of(bytes) {
        Some(ch) => filter.allows(ch),
        None => true,
    }
}

pub fn get_channel_from_bytes(bytes: &[u8]) -> (r: Option<u8>)
    ensures
        r == channel_of(bytes@),
{
    if bytes.len() == 0 {
        return None;
    }
    let status = bytes[0];
    if status >= 0x80 && status < 0xF0 {
        assert(status & 0x0F == status % 16) by (bit_vector);
        Some(status & 0x0F)
    } else {
        None
    }
}

pub fn should_route(bytes: &[u8], filter: &ChannelFilter) -> (r: bool)
    ensures
        r == passes_filter(bytes@, *filter),
{
    match get_channel_from_bytes(bytes) {
        Some(ch) => filter.passes(ch),
        None => true,
    }
}

/// A Control Change packet: status 0xB0..0xBF and at least three bytes.
pub open spec fn is_cc(bytes: Seq<u8>) -> bool {
    bytes.len() >= 3 && 0xB0 <= bytes[0] <= 0xBF
}

/// Check if a message is a Control Change message.
pub fn is_cc_message(bytes: &[u8]) -> (r: bool)
    ensures
        r == is_cc(bytes@),
{
    if bytes.len() >= 3 {
        let status = bytes[0];
        assert((status & 0xF0 == 0xB0) == (0xB0 <= status && status <= 0xBF)) by (bit_vector);
        (status & 0xF0) == 0xB0
    } else {
        false
    }
}

/// The 0-indexed channel that a stored 1-indexed target channel goes out
/// on: 0 stays 0, and values above 16 go out on the last channel.
pub open spec fn out_channel(ch: u8) -> u8 {
    if ch == 0 {
        0
    } else if ch > 16 {
        15
    } else {
        (ch - 1) as u8
    }
}

/// The Control Change packet for one target channel.
pub open spec fn cc_packet(ch: u8, cc: u8, value: u8) -> Seq<u8> {
    seq![(0xB0 + out_channel(ch)) as u8, cc, value]
}

/// The packets of one target, one per channel, in the order of its channels.
pub open spec fn target_packets(t: CcTarget, value: u8) -> Seq<Seq<u8>> {
    t.channels@.map_values(|ch: u8| cc_packet(ch, t.cc, value))
}

/// The packets of a list of targets, target after target.
pub open spec fn mapping_packets(targets: Seq<CcTarget>, value: u8) -> Seq<Seq<u8>>
    decreases targets.len(),
{
    if targets.len() == 0 {
        seq![]
    } else {
        mapping_packets(targets.drop_last(), value) + target_packets(targets.last(), value)
    }
}

/// The first mapping at or after position `i` whose source is `cc`.
pub open spec fn find_mapping(ms: Seq<CcMapping>, cc: u8, i: int) -> Option<CcMapping>
    decreases ms.len() - i,
{
    if i < 0 || i >= ms.len() {
        None
    } else if ms[i].source_cc == cc {
        Some(ms[i])
    } else {
        find_mapping(ms, cc, i + 1)
    }
}

/// The packets that a route sends for an inbound packet that it accepts.
pub open spec fn cc_output(bytes: Seq<u8>, route: Route) -> Seq<Seq<u8>> {
    if !is_cc(bytes) {
        seq![bytes]
    } else {
        match find_mapping(route.cc_mappings@, bytes[1], 0) {
            Some(m) => mapping_packets(m.targets@, bytes[2]),
            None => if route.cc_passthrough {
                seq![bytes]
            } else {
                seq![]
            },
        }
    }
}

/// The contents of a list of packets.
pub open spec fn packets_view(v: Seq<Vec<u8>>) -> Seq<Seq<u8>> {
    v.map_values(|p: Vec<u8>| p@)
}

/// The Control Change packet for one target channel.
fn cc_bytes(ch: u8, cc: u8, value: u8) -> (r: Vec<u8>)
    ensures
        r@ == cc_packet(ch, cc, value),
{
    let out: u8 = if ch == 0 {
        0
    } else if ch > 16 {
        15
    } else {
        ch - 1
    };
    assert(out < 16 ==> (0xB0u8 | out) == (0xB0u8 + out) as u8) by (bit_vector);
    let mut r: Vec<u8> = Vec::new();
    r.push(0xB0 | out);
    r.push(cc);
    r.push(value);
    assert(r@ =~= cc_packet(ch, cc, value));
    r
}

/// The packets of all targets of a mapping.
fn mapping_output(targets: &Vec<CcTarget>, value: u8) -> (r: Vec<Vec<u8>>)
    ensures
        packets_view(r@) == mapping_packets(targets@, value),
{
    let mut out: Vec<Vec<u8>> = Vec::new();
    let mut i: usize = 0;
    assert(packets_view(out@) =~= mapping_packets(targets@.take(0), value));
    while i < targets.len()
        invariant
            0 <= i <= targets.len(),
            packets_view(out@) == mapping_packets(targets@.take(i as int), value),
        decreases targets.len() - i,
    {
        let t = &targets[i];
        let ghost before = packets_view(out@);
        let mut j: usize = 0;
        assert(t.channels@.take(0).map_values(|ch: u8| cc_packet(ch, t.cc, value)) =~= seq![]);
        assert(packets_view(out@) =~= before + t.channels@.take(0).map_values(
            |ch: u8| cc_packet(ch, t.cc, value),
        ));
        while j < t.channels.len()
            invariant
                0 <= j <= t.channels.len(),
                t == targets@[i as int],
                packets_view(out@) == before + t.channels@.take(j as int).map_values(
                    |ch: u8| cc_packet(ch, t.cc, value),
                ),
            decreases t.channels.len() - j,
        {
            let p = cc_bytes(t.channels[j], t.cc, value);
            let ghost prev = out@;
            out.push(p);
            assert(packets_view(out@) =~= packets_view(prev).push(p@));
            assert(t.channels@.take(j + 1) =~= t.channels@.take(j as int).push(t.channels@[j as int]));
            assert(t.channels@.take(j + 1).map_values(|ch: u8| cc_packet(ch, t.cc, value))
                =~= t.channels@.take(j as int).map_values(|ch: u8| cc_packet(ch, t.cc, value)).push(
                cc_packet(t.channels@[j as int], t.cc, value),
            ));
            j += 1;
        }
        assert(t.channels@.take(j as int) =~= t.channels@);
        assert(targets@.take(i + 1).drop_last() =~= targets@.take(i as int));
        assert(targets@.take(i + 1).last() == targets@[i as int]);
        i += 1;
    }
    assert(targets@.take(i as int) =~= targets@);
    out
}

/// The packet, copied, as the only element of a list.
fn single_packet(bytes: &[u8]) -> (r: Vec<Vec<u8>>)
    ensures
        packets_view(r@) == seq![bytes@],
{
    let mut r: Vec<Vec<u8>> = Vec::new();
    r.push(slice_to_vec(bytes));
    assert(packets_view(r@) =~= seq![bytes@]);
    r
}

/// Apply a route's control-change mappings to an inbound packet.
///
/// Packets other than Control Change pass unchanged. A Control Change packet
/// goes to the targets of the first mapping for its controller, keeping its
/// value; without such a mapping it passes unchanged when the route passes
/// control changes through, and is dropped otherwise.
pub fn apply_cc_mappings(bytes: &[u8], route: &Route) -> (r: Vec<Vec<u8>>)
    ensures
        packets_view(r@) == cc_output(bytes@, *route),
{
    if !is_cc_message(bytes) {
        return single_packet(bytes);
    }
    let cc_num = bytes[1];
    let value = bytes[2];
    let mut i: usize = 0;
    while i < route.cc_mappings.len()
        invariant
            0 <= i <= route.cc_mappings.len(),
            is_cc(bytes@),
            cc_num == bytes@[1],
            value == bytes@[2],
            find_mapping(route.cc_mappings@, cc_num, 0) == find_mapping(
                route.cc_mappings@,
                cc_num,
                i as int,
            ),
        decreases route.cc_mappings.len() - i,
    {
        if route.cc_mappings[i].source_cc == cc_num {
            assert(find_mapping(route.cc_mappings@, cc_num, i as int) == Some(
                route.cc_mappings@[i as int],
            ));
            return mapping_output(&route.cc_mappings[i].targets, value);
        }
        i += 1;
    }
    if route.cc_passthrough {
        single_packet(bytes)
    } else {
        Vec::new()
    }
}

/// Number of channels over a list of targets.
pub open spec fn total_channels(targets: Seq<CcTarget>) -> nat
    decreases targets.len(),
{
    if targets.len() == 0 {
        0
    } else {
        total_channels(targets.drop_last()) + targets.last().channels@.len()
    }
}

/// The filter `All` lets every packet through.
pub proof fn lemma_all_passes_everything(bytes: Seq<u8>)
    ensures
        passes_filter(bytes, ChannelFilter::All),
{
}

/// Under `Only(set)`, a Note On on channel `c` passes exactly when `c` is
/// in the set.
pub proof fn lemma_only_passes_listed(c: u8, note: u8, velocity: u8, set: Vec<u8>)
    requires
        c < 16,
    ensures
        passes_filter(seq![0x90u8 | c, note, velocity], ChannelFilter::Only(set)) == set@.contains(c),
{
    assert((0x90u8 | c) == 0x90 + c && (0x90u8 | c) % 16 == c) by (bit_vector)
        requires
            c < 16,
    ;
}

/// A packet other than Control Change leaves a route unchanged.
pub proof fn lemma_non_cc_unchanged(bytes: Seq<u8>, route: Route)
    requires
        !is_cc(bytes),
    ensures
        cc_output(bytes, route) == seq![bytes],
{
}

proof fn lemma_no_source_no_mapping(ms: Seq<CcMapping>, cc: u8, i: int)
    requires
        0 <= i,
        forall|k: int| 0 <= k < ms.len() ==> ms[k].source_cc != cc,
    ensures
        find_mapping(ms, cc, i) is None,
    decreases ms.len() - i,
{
    if i < ms.len() {
        lemma_no_source_no_mapping(ms, cc, i + 1);
    }
}

/// A Control Change packet that no mapping of the route takes passes
/// unchanged when the route passes control changes through, and is dropped
/// otherwise.
pub proof fn lemma_unmapped_cc(bytes: Seq<u8>, route: Route)
    requires
        is_cc(bytes),
        forall|k: int|
            0 <= k < route.cc_mappings@.len() ==> route.cc_mappings@[k].source_cc != bytes[1],
    ensures
        cc_output(bytes, route) == if route.cc_passthrough {
            seq![bytes]
        } else {
            seq![]
        },
{
    lemma_no_source_no_mapping(route.cc_mappings@, bytes[1], 0);
}

proof fn lemma_first_source_found(ms: Seq<CcMapping>, cc: u8, i: int, j: int)
    requires
        0 <= i <= j < ms.len(),
        ms[j].source_cc == cc,
        forall|k: int| 0 <= k < j ==> ms[k].source_cc != cc,
    ensures
        find_mapping(ms, cc, i) == Some(ms[j]),
    decreases j - i,
{
    if i < j {
        lemma_first_source_found(ms, cc, i + 1, j);
    }
}

/// A Control Change packet for one of the channels of one of the targets.
pub open spec fn from_some_target(targets: Seq<CcTarget>, value: u8, p: Seq<u8>) -> bool {
    exists|t: int, c: int|
        0 <= t < targets.len() && 0 <= c < targets[t].channels@.len() && p == cc_packet(
            targets[t].channels@[c],
            targets[t].cc,
            value,
        )
}

proof fn lemma_mapping_packets_shape(targets: Seq<CcTarget>, value: u8)
    ensures
        mapping_packets(targets, value).len() == total_channels(targets),
        forall|k: int|
            0 <= k < mapping_packets(targets, value).len() ==> from_some_target(
                targets,
                value,
                #[trigger] mapping_packets(targets, value)[k],
            ),
    decreases targets.len(),
{
    if targets.len() > 0 {
        let init = targets.drop_last();
        lemma_mapping_packets_shape(init, value);
        let head = mapping_packets(init, value);
        let tail = target_packets(targets.last(), value);
        assert(mapping_packets(targets, value) == head + tail);
        assert forall|k: int| 0 <= k < mapping_packets(targets, value).len() implies from_some_target(
            targets,
            value,
            #[trigger] mapping_packets(targets, value)[k],
        ) by {
            if k < head.len() {
                assert(mapping_packets(targets, value)[k] == head[k]);
                assert(from_some_target(init, value, head[k]));
                let (t, c) = choose|t: int, c: int|
                    0 <= t < init.len() && 0 <= c < init[t].channels@.len() && head[k]
                        == cc_packet(init[t].channels@[c], init[t].cc, value);
                assert(init[t] == targets[t]);
            } else {
                let c = k - head.len();
                let t = targets.len() - 1;
                assert(mapping_packets(targets, value)[k] == tail[c]);
                assert(targets.last() == targets[t]);
                assert(0 <= c < targets[t].channels@.len());
                assert(mapping_packets(targets, value)[k] == cc_packet(
                    targets[t].channels@[c],
                    targets[t].cc,
                    value,
                ));
            }
        }
    }
}

/// A Control Change packet taken by the route's first mapping for its
/// controller yields one packet per target channel, target after target;
/// each is a three-byte Control Change `[0xB0 | ch - 1, t.cc, value]` for a
/// target `t` and one of its channels `ch`, and keeps the inbound value.
pub proof fn lemma_mapped_cc(bytes: Seq<u8>, route: Route, j: int)
    requires
        is_cc(bytes),
        0 <= j < route.cc_mappings@.len(),
        route.cc_mappings@[j].source_cc == bytes[1],
        forall|k: int| 0 <= k < j ==> route.cc_mappings@[k].source_cc != bytes[1],
    ensures
        ({
            let targets = route.cc_mappings@[j].targets@;
            let out = cc_output(bytes, route);
            &&& out == mapping_packets(targets, bytes[2])
            &&& out.len() == total_channels(targets)
            &&& forall|k: int|
                0 <= k < out.len() ==> from_some_target(targets, bytes[2], #[trigger] out[k])
            &&& forall|k: int|
                0 <= k < out.len() ==> (#[trigger] out[k]).len() == 3 && 0xB0 <= out[k][0] <= 0xBF
                    && out[k][2] == bytes[2]
        }),
{
    let targets = route.cc_mappings@[j].targets@;
    lemma_first_source_found(route.cc_mappings@, bytes[1], 0, j);
    lemma_mapping_packets_shape(targets, bytes[2]);
    let out = cc_output(bytes, route);
    assert(out == mapping_packets(targets, bytes[2]));
    assert forall|k: int| 0 <= k < out.len() implies (#[trigger] out[k]).len() == 3 && 0xB0
        <= out[k][0] <= 0xBF && out[k][2] == bytes[2] by {
        assert(out[k] == mapping_packets(targets, bytes[2])[k]);
        assert(from_some_target(targets, bytes[2], out[k]));
        let (t, c) = choose|t: int, c: int|
            0 <= t < targets.len() && 0 <= c < targets[t].channels@.len() && out[k] == cc_packet(
                targets[t].channels@[c],
                targets[t].cc,
                bytes[2],
            );
    }
}

/// A target channel 0 goes out on channel 0: status byte 0xB0.
pub proof fn lemma_target_channel_zero(cc: u8, value: u8)
    ensures
        cc_packet(0, cc, value)[0] == 0xB0,
{
}

} // verus!

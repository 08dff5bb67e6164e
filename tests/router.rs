use midi_router::midi::router::{
    apply_cc_mappings, get_channel_from_bytes, is_cc_message, parse_midi_message, should_route,
};
use midi_router::types::{CcMapping, CcTarget, ChannelFilter, MessageKind, PortId, Route};

fn make_test_route(cc_passthrough: bool, mappings: Vec<CcMapping>) -> Route {
    Route {
        id: uuid::Uuid::new_v4(),
        source: PortId::new("Test In".to_string()),
        destination: PortId::new("Test Out".to_string()),
        enabled: true,
        channels: ChannelFilter::All,
        cc_passthrough,
        cc_mappings: mappings,
    }
}

#[test]
fn get_channel_from_note_on() {
    assert_eq!(get_channel_from_bytes(&[0x90, 60, 100]), Some(0));
    assert_eq!(get_channel_from_bytes(&[0x95, 60, 100]), Some(5));
    assert_eq!(get_channel_from_bytes(&[0x9F, 60, 100]), Some(15));
}

#[test]
fn get_channel_from_control_change() {
    assert_eq!(get_channel_from_bytes(&[0xB0, 1, 64]), Some(0));
    assert_eq!(get_channel_from_bytes(&[0xB9, 1, 64]), Some(9));
}

#[test]
fn get_channel_from_system_message_returns_none() {
    assert_eq!(get_channel_from_bytes(&[0xF0, 0x7E, 0xF7]), None);
    assert_eq!(get_channel_from_bytes(&[0xF8]), None);
}

#[test]
fn get_channel_from_empty_returns_none() {
    assert_eq!(get_channel_from_bytes(&[]), None);
}

#[test]
fn parse_note_on() {
    let bytes = [0x90, 60, 100];
    let activity = parse_midi_message(1000, "Test Port", &bytes).unwrap();

    assert_eq!(activity.channel, Some(0));
    assert_eq!(activity.port, "Test Port");
    assert!(matches!(activity.kind, MessageKind::NoteOn { note: 60, velocity: 100 }));
    assert_eq!(activity.timestamp, 1000);
    assert_eq!(activity.raw, vec![0x90, 60, 100]);
}

#[test]
fn parse_note_off() {
    let bytes = [0x85, 64, 0];
    let activity = parse_midi_message(1000, "Port", &bytes).unwrap();

    assert_eq!(activity.channel, Some(5));
    assert!(matches!(activity.kind, MessageKind::NoteOff { note: 64, velocity: 0 }));
}

#[test]
fn parse_note_on_with_zero_velocity_is_note_off() {
    let activity = parse_midi_message(7, "Port", &[0x93, 60, 0]).unwrap();
    assert_eq!(activity.channel, Some(3));
    assert_eq!(activity.kind, MessageKind::NoteOff { note: 60, velocity: 0 });
}

#[test]
fn parse_control_change() {
    let bytes = [0xB0, 74, 127];
    let activity = parse_midi_message(1000, "Port", &bytes).unwrap();

    assert_eq!(activity.channel, Some(0));
    assert!(matches!(activity.kind, MessageKind::ControlChange { controller: 74, value: 127 }));
}

#[test]
fn parse_program_change() {
    let bytes = [0xC3, 42];
    let activity = parse_midi_message(1000, "Port", &bytes).unwrap();

    assert_eq!(activity.channel, Some(3));
    assert!(matches!(activity.kind, MessageKind::ProgramChange { program: 42 }));
}

#[test]
fn parse_invalid_bytes_returns_none() {
    assert!(parse_midi_message(1000, "Port", &[]).is_none());
    assert!(parse_midi_message(1000, "Port", &[0x00]).is_none());
}

#[test]
fn parse_truncated_or_malformed_returns_none() {
    // Note On without its velocity byte.
    assert!(parse_midi_message(1, "Port", &[0x90, 60]).is_none());
    // A data byte with the top bit set.
    assert!(parse_midi_message(1, "Port", &[0x90, 0x80, 100]).is_none());
    // System Exclusive without its end byte.
    assert!(parse_midi_message(1, "Port", &[0xF0, 1, 2, 3]).is_none());
    // End of System Exclusive on its own.
    assert!(parse_midi_message(1, "Port", &[0xF7]).is_none());
}

#[test]
fn parse_other_system_messages() {
    let activity = parse_midi_message(1, "Port", &[0xFE]).unwrap();
    assert_eq!(activity.channel, None);
    assert_eq!(activity.kind, MessageKind::Other);
    let activity = parse_midi_message(1, "Port", &[0xF2, 1, 2]).unwrap();
    assert_eq!(activity.kind, MessageKind::Other);
}

#[test]
fn should_route_all_passes_everything() {
    let filter = ChannelFilter::All;
    assert!(should_route(&[0x90, 60, 100], &filter));
    assert!(should_route(&[0x9F, 60, 100], &filter));
    assert!(should_route(&[0xF0, 0x7E, 0xF7], &filter));
}

#[test]
fn should_route_only_filters_channels() {
    let filter = ChannelFilter::Only(vec![0, 1]);
    assert!(should_route(&[0x90, 60, 100], &filter));
    assert!(should_route(&[0x91, 60, 100], &filter));
    assert!(!should_route(&[0x92, 60, 100], &filter));
}

#[test]
fn should_route_system_messages_always_pass() {
    let filter = ChannelFilter::Only(vec![0]);
    assert!(should_route(&[0xF0, 0x7E, 0xF7], &filter));
    assert!(should_route(&[0xF8], &filter));
}

#[test]
fn is_cc_message_identifies_cc() {
    assert!(is_cc_message(&[0xB0, 1, 64]));
    assert!(is_cc_message(&[0xBF, 74, 127]));
}

#[test]
fn is_cc_message_rejects_non_cc() {
    assert!(!is_cc_message(&[0x90, 60, 100]));
    assert!(!is_cc_message(&[0x80, 60, 0]));
    assert!(!is_cc_message(&[0xC0, 5]));
    assert!(!is_cc_message(&[0xF8]));
    assert!(!is_cc_message(&[]));
}

#[test]
fn apply_cc_mappings_non_cc_passes_through() {
    let route = make_test_route(false, vec![]);
    let note_on = [0x90, 60, 100];
    let result = apply_cc_mappings(&note_on, &route);
    assert_eq!(result, vec![note_on.to_vec()]);
}

#[test]
fn apply_cc_mappings_unmapped_passthrough_true() {
    let route = make_test_route(true, vec![]);
    let cc = [0xB0, 7, 100];
    let result = apply_cc_mappings(&cc, &route);
    assert_eq!(result, vec![cc.to_vec()]);
}

#[test]
fn apply_cc_mappings_unmapped_passthrough_false() {
    let route = make_test_route(false, vec![]);
    let cc = [0xB0, 7, 100];
    let result = apply_cc_mappings(&cc, &route);
    assert!(result.is_empty());
}

#[test]
fn apply_cc_mappings_single_target() {
    let mapping = CcMapping { source_cc: 1, targets: vec![CcTarget { cc: 74, channels: vec![1] }] };
    let route = make_test_route(true, vec![mapping]);
    let cc = [0xB5, 1, 100];
    let result = apply_cc_mappings(&cc, &route);
    assert_eq!(result, vec![vec![0xB0, 74, 100]]);
}

#[test]
fn apply_cc_mappings_multiple_channels() {
    let mapping =
        CcMapping { source_cc: 1, targets: vec![CcTarget { cc: 74, channels: vec![1, 2, 3] }] };
    let route = make_test_route(true, vec![mapping]);
    let cc = [0xB0, 1, 64];
    let result = apply_cc_mappings(&cc, &route);
    assert_eq!(result.len(), 3);
    assert_eq!(result[0], vec![0xB0, 74, 64]);
    assert_eq!(result[1], vec![0xB1, 74, 64]);
    assert_eq!(result[2], vec![0xB2, 74, 64]);
}

#[test]
fn apply_cc_mappings_multiple_targets() {
    let mapping = CcMapping {
        source_cc: 1,
        targets: vec![
            CcTarget { cc: 74, channels: vec![1] },
            CcTarget { cc: 71, channels: vec![1] },
        ],
    };
    let route = make_test_route(true, vec![mapping]);
    let cc = [0xB0, 1, 127];
    let result = apply_cc_mappings(&cc, &route);
    assert_eq!(result.len(), 2);
    assert_eq!(result[0], vec![0xB0, 74, 127]);
    assert_eq!(result[1], vec![0xB0, 71, 127]);
}

#[test]
fn apply_cc_mappings_output_length_is_channel_total() {
    let mapping = CcMapping {
        source_cc: 10,
        targets: vec![
            CcTarget { cc: 20, channels: vec![16, 2] },
            CcTarget { cc: 21, channels: vec![] },
            CcTarget { cc: 22, channels: vec![5, 6, 7] },
        ],
    };
    let route = make_test_route(false, vec![mapping]);
    let result = apply_cc_mappings(&[0xB3, 10, 33], &route);
    assert_eq!(
        result,
        vec![
            vec![0xBF, 20, 33],
            vec![0xB1, 20, 33],
            vec![0xB4, 22, 33],
            vec![0xB5, 22, 33],
            vec![0xB6, 22, 33],
        ]
    );
}

#[test]
fn apply_cc_mappings_channel_above_sixteen_goes_to_last_channel() {
    let mapping = CcMapping { source_cc: 1, targets: vec![CcTarget { cc: 74, channels: vec![17, 200] }] };
    let route = make_test_route(true, vec![mapping]);
    let result = apply_cc_mappings(&[0xB0, 1, 5], &route);
    assert_eq!(result, vec![vec![0xBF, 74, 5], vec![0xBF, 74, 5]]);
}

#[test]
fn parse_pitch_bend() {
    let bytes = [0xE3, 0x00, 0x40];
    let activity = parse_midi_message(1000, "Port", &bytes).unwrap();

    assert_eq!(activity.channel, Some(3));
    assert!(matches!(activity.kind, MessageKind::PitchBend { value: 8192 }));
}

#[test]
fn parse_pitch_bend_max() {
    let bytes = [0xE0, 0x7F, 0x7F];
    let activity = parse_midi_message(1000, "Port", &bytes).unwrap();

    assert!(matches!(activity.kind, MessageKind::PitchBend { value: 16383 }));
}

#[test]
fn parse_aftertouch() {
    let bytes = [0xD5, 100];
    let activity = parse_midi_message(1000, "Port", &bytes).unwrap();

    assert_eq!(activity.channel, Some(5));
    assert!(matches!(activity.kind, MessageKind::Aftertouch { value: 100 }));
}

#[test]
fn parse_poly_aftertouch() {
    let bytes = [0xA2, 64, 80];
    let activity = parse_midi_message(1000, "Port", &bytes).unwrap();

    assert_eq!(activity.channel, Some(2));
    assert!(matches!(activity.kind, MessageKind::PolyAftertouch { note: 64, value: 80 }));
}

#[test]
fn parse_sysex() {
    let bytes = [0xF0, 0x7E, 0x00, 0x06, 0x01, 0xF7];
    let activity = parse_midi_message(1000, "Port", &bytes).unwrap();

    assert_eq!(activity.channel, None);
    assert!(matches!(activity.kind, MessageKind::SysEx));
}

#[test]
fn parse_transport_start() {
    let bytes = [0xFA];
    let activity = parse_midi_message(1000, "Port", &bytes).unwrap();

    assert_eq!(activity.channel, None);
    assert!(matches!(activity.kind, MessageKind::Start));
}

#[test]
fn parse_transport_stop() {
    let bytes = [0xFC];
    let activity = parse_midi_message(1000, "Port", &bytes).unwrap();

    assert_eq!(activity.channel, None);
    assert!(matches!(activity.kind, MessageKind::Stop));
}

#[test]
fn parse_transport_continue() {
    let bytes = [0xFB];
    let activity = parse_midi_message(1000, "Port", &bytes).unwrap();

    assert_eq!(activity.channel, None);
    assert!(matches!(activity.kind, MessageKind::Continue));
}

#[test]
fn parse_transport_clock() {
    let bytes = [0xF8];
    let activity = parse_midi_message(1000, "Port", &bytes).unwrap();

    assert_eq!(activity.channel, None);
    assert!(matches!(activity.kind, MessageKind::Clock));
}

#[test]
fn should_route_except_blocks_listed() {
    let filter = ChannelFilter::Except(vec![9, 10]);
    assert!(should_route(&[0x90, 60, 100], &filter));
    assert!(should_route(&[0x98, 60, 100], &filter));
    assert!(!should_route(&[0x99, 60, 100], &filter));
    assert!(!should_route(&[0x9A, 60, 100], &filter));
    assert!(should_route(&[0x9B, 60, 100], &filter));
}

#[test]
fn should_route_empty_bytes_passes() {
    let filter = ChannelFilter::Only(vec![0]);
    assert!(should_route(&[], &filter));
}

#[test]
fn empty_packet_boundaries() {
    assert_eq!(get_channel_from_bytes(&[]), None);
    assert!(should_route(&[], &ChannelFilter::All));
    assert!(!midi_router::midi::transport::is_transport_message(&[]));
    assert!(parse_midi_message(0, "Port", &[]).is_none());
}

#[test]
fn should_route_only_note_on_every_channel() {
    let filter = ChannelFilter::Only(vec![3, 12]);
    for c in 0u8..16 {
        assert_eq!(should_route(&[0x90 | c, 60, 1], &filter), c == 3 || c == 12);
    }
}

#[test]
fn apply_cc_mappings_preserves_value() {
    let mapping = CcMapping { source_cc: 1, targets: vec![CcTarget { cc: 74, channels: vec![1] }] };
    let route = make_test_route(true, vec![mapping]);

    for value in [0, 1, 64, 126, 127] {
        let cc = [0xB0, 1, value];
        let result = apply_cc_mappings(&cc, &route);
        assert_eq!(result[0][2], value, "Value {} should be preserved", value);
    }
}

#[test]
fn apply_cc_mappings_channel_zero_edge_case() {
    let mapping = CcMapping { source_cc: 1, targets: vec![CcTarget { cc: 74, channels: vec![0] }] };
    let route = make_test_route(true, vec![mapping]);
    let cc = [0xB5, 1, 64];
    let result = apply_cc_mappings(&cc, &route);
    assert_eq!(result[0][0], 0xB0);
}

#[test]
fn apply_cc_mappings_multiple_mappings_same_source() {
    let mappings = vec![
        CcMapping { source_cc: 1, targets: vec![CcTarget { cc: 74, channels: vec![1] }] },
        CcMapping { source_cc: 1, targets: vec![CcTarget { cc: 71, channels: vec![2] }] },
    ];
    let route = make_test_route(true, mappings);
    let cc = [0xB0, 1, 100];
    let result = apply_cc_mappings(&cc, &route);

    assert_eq!(result.len(), 1);
    assert_eq!(result[0], vec![0xB0, 74, 100]);
}

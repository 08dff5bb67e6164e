use midi_router::midi::port_manager::PortManager;
use midi_router::types::{ChannelFilter, EngineError, PortId, Route};

fn make_test_route(source: &str, dest: &str, enabled: bool) -> Route {
    Route {
        id: uuid::Uuid::new_v4(),
        source: PortId::new(source.to_string()),
        destination: PortId::new(dest.to_string()),
        enabled,
        channels: ChannelFilter::All,
        cc_passthrough: true,
        cc_mappings: vec![],
    }
}

fn has(names: &[String], name: &str) -> bool {
    names.iter().any(|n| n == name)
}

#[test]
fn needed_input_ports_filters_enabled() {
    let routes = vec![
        make_test_route("Input A", "Output A", true),
        make_test_route("Input B", "Output B", false),
        make_test_route("Input C", "Output C", true),
    ];

    let needed = PortManager::needed_input_ports(&routes);
    assert!(has(&needed, "Input A"));
    assert!(!has(&needed, "Input B"));
    assert!(has(&needed, "Input C"));
}

#[test]
fn needed_output_ports_filters_enabled() {
    let routes = vec![
        make_test_route("Input A", "Output A", true),
        make_test_route("Input B", "Output B", false),
        make_test_route("Input C", "Output C", true),
    ];

    let needed = PortManager::needed_output_ports(&routes);
    assert!(has(&needed, "Output A"));
    assert!(!has(&needed, "Output B"));
    assert!(has(&needed, "Output C"));
}

#[test]
fn needed_ports_deduplicates() {
    let routes = vec![
        make_test_route("Input A", "Output A", true),
        make_test_route("Input A", "Output B", true),
    ];

    let needed_inputs = PortManager::needed_input_ports(&routes);
    assert_eq!(needed_inputs.len(), 1);
    assert!(has(&needed_inputs, "Input A"));

    let needed_outputs = PortManager::needed_output_ports(&routes);
    assert_eq!(needed_outputs.len(), 2);
}

#[test]
fn needed_input_ports_empty_routes() {
    let routes: Vec<Route> = vec![];
    let needed = PortManager::needed_input_ports(&routes);
    assert!(needed.is_empty());
}

#[test]
fn needed_output_ports_empty_routes() {
    let routes: Vec<Route> = vec![];
    let needed = PortManager::needed_output_ports(&routes);
    assert!(needed.is_empty());
}

#[test]
fn needed_ports_all_disabled() {
    let routes = vec![
        make_test_route("Input A", "Output A", false),
        make_test_route("Input B", "Output B", false),
    ];

    let needed_inputs = PortManager::needed_input_ports(&routes);
    assert!(needed_inputs.is_empty());

    let needed_outputs = PortManager::needed_output_ports(&routes);
    assert!(needed_outputs.is_empty());
}

#[test]
fn port_manager_clear_all_resets_state() {
    let mut manager = PortManager::new();
    manager.input_opened("In".to_string());
    manager.output_opened("Out".to_string());

    let plan = manager.clear_all();

    assert!(manager.input_connections().is_empty());
    assert!(manager.output_connections().is_empty());
    assert_eq!(plan.close_inputs, vec!["In".to_string()]);
    assert_eq!(plan.close_outputs, vec!["Out".to_string()]);
}

#[test]
fn port_manager_sync_with_routes_handles_nonexistent_ports() {
    let mut manager = PortManager::new();

    let routes = vec![make_test_route("Nonexistent Input", "Nonexistent Output", true)];

    let plan = manager.sync_with_routes(&routes);
    assert_eq!(plan.open_inputs, vec!["Nonexistent Input".to_string()]);
    assert_eq!(plan.open_outputs, vec!["Nonexistent Output".to_string()]);
    assert!(plan.close_inputs.is_empty());
    assert!(plan.close_outputs.is_empty());
    // Nothing counts as open until the opening is reported.
    assert!(manager.input_connections().is_empty());
    assert!(manager.output_connections().is_empty());
}

#[test]
fn sync_closes_ports_no_longer_needed() {
    let mut manager = PortManager::new();
    manager.input_opened("In A".to_string());
    manager.input_opened("In B".to_string());
    manager.output_opened("Out A".to_string());

    let routes = vec![
        make_test_route("In B", "Out A", true),
        make_test_route("In C", "Out C", false),
    ];
    let plan = manager.sync_with_routes(&routes);

    assert_eq!(plan.close_inputs, vec!["In A".to_string()]);
    assert!(plan.open_inputs.is_empty());
    assert!(plan.close_outputs.is_empty());
    assert!(plan.open_outputs.is_empty());
    assert_eq!(manager.input_connections(), &vec!["In B".to_string()]);
    assert_eq!(manager.output_connections(), &vec!["Out A".to_string()]);
}

#[test]
fn opened_port_is_recorded_once() {
    let mut manager = PortManager::new();
    manager.output_opened("Out".to_string());
    manager.output_opened("Out".to_string());
    assert_eq!(manager.output_connections().len(), 1);
}

#[test]
fn port_manager_send_to_nonexistent_returns_error() {
    let manager = PortManager::new();

    let result = manager.send_to(&"Nonexistent Port".to_string(), &[0x90, 60, 100]);
    assert!(result.is_err());
    match result {
        Err(EngineError::SendFailed { port_name, reason }) => {
            assert_eq!(port_name, "Nonexistent Port");
            assert_eq!(reason, "Port not connected");
        }
        _ => panic!("expected a send failure"),
    }
}

#[test]
fn port_manager_send_to_open_output() {
    let mut manager = PortManager::new();
    manager.output_opened("Out".to_string());
    let sent = manager.send_to(&"Out".to_string(), &[0x90, 60, 100]).unwrap();
    assert_eq!(sent.port, "Out");
    assert_eq!(sent.bytes, vec![0x90, 60, 100]);
}

#[test]
fn port_manager_send_to_all_empty_does_not_panic() {
    let manager = PortManager::new();
    assert!(manager.send_to_all(&[0x90, 60, 100]).is_empty());
}

#[test]
fn send_to_all_addresses_every_output() {
    let mut manager = PortManager::new();
    manager.output_opened("One".to_string());
    manager.output_opened("Two".to_string());
    let sent = manager.send_to_all(&[0xF8]);
    assert_eq!(sent.len(), 2);
    assert_eq!(sent[0].port, "One");
    assert_eq!(sent[1].port, "Two");
    assert_eq!(sent[0].bytes, vec![0xF8]);
    assert_eq!(sent[1].bytes, vec![0xF8]);
}

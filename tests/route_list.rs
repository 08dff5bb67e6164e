use midi_router::route_list::{
    add_route, remove_route, set_route_cc_mappings, set_route_channels, toggle_route,
};
use midi_router::types::{CcMapping, CcTarget, ChannelFilter, Route};

fn three_routes() -> (Vec<Route>, Vec<uuid::Uuid>) {
    let mut routes: Vec<Route> = Vec::new();
    let a = add_route(&mut routes, "In A".to_string(), "Out A".to_string());
    let b = add_route(&mut routes, "In B".to_string(), "Out B".to_string());
    let c = add_route(&mut routes, "In C".to_string(), "Out C".to_string());
    (routes, vec![a, b, c])
}

#[test]
fn add_route_appends_default_route() {
    let (routes, ids) = three_routes();
    assert_eq!(routes.len(), 3);
    assert_eq!(routes[2].id, ids[2]);
    assert_eq!(routes[2].source.name, "In C");
    assert_eq!(routes[2].destination.name, "Out C");
    assert!(routes[2].enabled);
    assert!(routes[2].cc_passthrough);
    assert!(matches!(routes[2].channels, ChannelFilter::All));
}

#[test]
fn remove_route_keeps_order_of_others() {
    let (mut routes, ids) = three_routes();
    remove_route(&mut routes, &ids[1]);
    assert_eq!(routes.len(), 2);
    assert_eq!(routes[0].id, ids[0]);
    assert_eq!(routes[1].id, ids[2]);
    remove_route(&mut routes, &uuid::Uuid::new_v4());
    assert_eq!(routes.len(), 2);
}

#[test]
fn toggle_route_flips_enabled() {
    let (mut routes, ids) = three_routes();
    assert!(!toggle_route(&mut routes, &ids[0]));
    assert!(!routes[0].enabled);
    assert!(routes[1].enabled);
    assert!(toggle_route(&mut routes, &ids[0]));
    assert!(routes[0].enabled);
    assert!(!toggle_route(&mut routes, &uuid::Uuid::new_v4()));
}

#[test]
fn set_route_channels_changes_one_route() {
    let (mut routes, ids) = three_routes();
    set_route_channels(&mut routes, &ids[1], ChannelFilter::Except(vec![9]));
    assert!(matches!(routes[1].channels, ChannelFilter::Except(ref c) if c == &vec![9]));
    assert!(matches!(routes[0].channels, ChannelFilter::All));
}

#[test]
fn set_route_cc_mappings_changes_one_route() {
    let (mut routes, ids) = three_routes();
    let mapping = CcMapping { source_cc: 1, targets: vec![CcTarget { cc: 74, channels: vec![1] }] };
    set_route_cc_mappings(&mut routes, &ids[2], false, vec![mapping]);
    assert!(!routes[2].cc_passthrough);
    assert_eq!(routes[2].cc_mappings.len(), 1);
    assert_eq!(routes[2].cc_mappings[0].source_cc, 1);
    assert!(routes[0].cc_passthrough);
    assert!(routes[0].cc_mappings.is_empty());
}

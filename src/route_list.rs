//! Editing the list of routes: adding, removing and changing a route by its
//! identifier.
use vstd::prelude::*;

use crate::types::{CcMapping, ChannelFilter, PortId, Route};

verus! {

/// Relies on the derived `PartialEq` of uuid::Uuid, which compares the
/// sixteen bytes that make up the whole value.
pub assume_specification[ <uuid::Uuid as core::cmp::PartialEq>::eq ](
    a: &uuid::Uuid,
    b: &uuid::Uuid,
) -> (r: bool)
    ensures
        r == (*a == *b),
;

/// Position of the first route at or after `i` whose identifier is `id`.
pub open spec fn route_index(routes: Seq<Route>, id: uuid::Uuid, i: int) -> Option<int>
    decreases routes.len() - i,
{
    if i < 0 || i >= routes.len() {
        None
    } else if routes[i].id == id {
        Some(i)
    } else {
        route_index(routes, id, i + 1)
    }
}

/// Whether a route keeps its place when routes with identifier `id` go.
pub open spec fn keeps(id: uuid::Uuid) -> spec_fn(Route) -> bool {
    |r: Route| r.id != id
}

proof fn lemma_route_index_bounds(routes: Seq<Route>, id: uuid::Uuid, i: int)
    requires
        0 <= i,
    ensures
        route_index(routes, id, i) matches Some(k) ==> i <= k < routes.len() && routes[k].id == id,
    decreases routes.len() - i,
{
    if i < routes.len() && routes[i].id != id {
        lemma_route_index_bounds(routes, id, i + 1);
    }
}

/// Position of the first route whose identifier is `id`.
fn position(routes: &Vec<Route>, id: &uuid::Uuid) -> (r: Option<usize>)
    ensures
        r matches Some(i) ==> route_index(routes@, *id, 0) == Some(i as int) && i < routes@.len(),
        r is None ==> route_index(routes@, *id, 0) is None,
{
    let mut i: usize = 0;
    while i < routes.len()
        invariant
            0 <= i <= routes.len(),
            route_index(routes@, *id, 0) == route_index(routes@, *id, i as int),
        decreases routes.len() - i,
    {
        if routes[i].id == *id {
            return Some(i);
        }
        i += 1;
    }
    None
}

/// Add an enabled route from `source_name` to `dest_name` that lets every
/// channel through and passes control changes unchanged; returns its
/// identifier.
pub fn add_route(routes: &mut Vec<Route>, source_name: String, dest_name: String) -> (r: uuid::Uuid)
    ensures
        final(routes)@.len() == old(routes)@.len() + 1,
        final(routes)@.take(old(routes)@.len() as int) == old(routes)@,
        ({
            let added = final(routes)@.last();
            &&& added.id == r
            &&& added.source.name@ == source_name@
            &&& added.destination.name@ == dest_name@
            &&& added.enabled
            &&& added.channels is All
            &&& added.cc_passthrough
            &&& added.cc_mappings@.len() == 0
        }),
{
    let route = Route::new(PortId::new(source_name), PortId::new(dest_name));
    let id = route.id;
    routes.push(route);
    assert(routes@.take(old(routes)@.len() as int) =~= old(routes)@);
    id
}

/// Remove every route whose identifier is `id`, keeping the order of the
/// others.
pub fn remove_route(routes: &mut Vec<Route>, id: &uuid::Uuid)
    ensures
        final(routes)@ == old(routes)@.filter(keeps(*id)),
{
    let ghost all = routes@;
    let mut rest: Vec<Route> = Vec::new();
    core::mem::swap(&mut rest, routes);
    let total: usize = rest.len();
    let ghost n = total as nat;
    let mut k: usize = 0;
    proof {
        reveal(Seq::filter);
        assert(all.take(0) =~= Seq::<Route>::empty());
        assert(routes@ =~= all.take(0).filter(keeps(*id)));
        assert(rest@ =~= all.subrange(0, n as int));
    }
    while rest.len() > 0
        invariant
            n == all.len(),
            n == total,
            0 <= k <= n,
            rest@ == all.subrange(k as int, n as int),
            routes@ == all.take(k as int).filter(keeps(*id)),
        decreases rest.len(),
    {
        let route = rest.remove(0);
        let ghost taken = all.take(k as int);
        proof {
            reveal(Seq::filter);
            assert(route == all[k as int]);
            assert(all.take(k + 1).drop_last() =~= taken);
            assert(all.take(k + 1).last() == route);
        }
        if route.id != *id {
            routes.push(route);
        }
        k += 1;
        assert(rest@ =~= all.subrange(k as int, n as int));
    }
    assert(all.take(k as int) =~= all);
}

/// Flip `enabled` on the first route whose identifier is `id`; returns the
/// new value, or `false` when no route has that identifier.
pub fn toggle_route(routes: &mut Vec<Route>, id: &uuid::Uuid) -> (r: bool)
    ensures
        match route_index(old(routes)@, *id, 0) {
            Some(i) => {
                &&& final(routes)@ == old(routes)@.update(
                    i,
                    Route { enabled: !old(routes)@[i].enabled, ..old(routes)@[i] },
                )
                &&& r == !old(routes)@[i].enabled
            },
            None => final(routes)@ == old(routes)@ && !r,
        },
{
    match position(routes, id) {
        Some(i) => {
            let mut route = routes.remove(i);
            route.enabled = !route.enabled;
            let enabled = route.enabled;
            routes.insert(i, route);
            assert(routes@ =~= old(routes)@.update(
                i as int,
                Route { enabled: !old(routes)@[i as int].enabled, ..old(routes)@[i as int] },
            ));
            enabled
        },
        None => false,
    }
}

/// Set the channel filter of the first route whose identifier is `id`.
pub fn set_route_channels(routes: &mut Vec<Route>, id: &uuid::Uuid, filter: ChannelFilter)
    ensures
        match route_index(old(routes)@, *id, 0) {
            Some(i) => final(routes)@ == old(routes)@.update(
                i,
                Route { channels: filter, ..old(routes)@[i] },
            ),
            None => final(routes)@ == old(routes)@,
        },
{
    if let Some(i) = position(routes, id) {
        let mut route = routes.remove(i);
        route.channels = filter;
        routes.insert(i, route);
        assert(routes@ =~= old(routes)@.update(
            i as int,
            Route { channels: filter, ..old(routes)@[i as int] },
        ));
    }
}

/// Set whether unmapped control changes pass, and the control-change
/// mappings, of the first route whose identifier is `id`.
pub fn set_route_cc_mappings(
    routes: &mut Vec<Route>,
    id: &uuid::Uuid,
    cc_passthrough: bool,
    cc_mappings: Vec<CcMapping>,
)
    ensures
        match route_index(old(routes)@, *id, 0) {
            Some(i) => final(routes)@ == old(routes)@.update(
                i,
                Route { cc_passthrough, cc_mappings, ..old(routes)@[i] },
            ),
            None => final(routes)@ == old(routes)@,
        },
{
    if let Some(i) = position(routes, id) {
        let mut route = routes.remove(i);
        route.cc_passthrough = cc_passthrough;
        route.cc_mappings = cc_mappings;
        routes.insert(i, route);
        assert(routes@ =~= old(routes)@.update(
            i as int,
            Route { cc_passthrough, cc_mappings, ..old(routes)@[i as int] },
        ));
    }
}

} // verus!

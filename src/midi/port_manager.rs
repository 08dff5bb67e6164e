//! Which ports are open, and what must be opened or closed for a set of
//! routes.
//!
//! The manager keeps the names of the open input and output connections.
//! Reconciling with the routes yields a plan of changes; closes take effect
//! at once, and a port counts as open once the caller reports that opening
//! it succeeded.
use vstd::prelude::*;

use crate::types::{EngineError, Route};

verus! {

/// The names held by a list of strings.
pub open spec fn name_set(v: Seq<String>) -> Set<Seq<char>> {
    Set::new(|n: Seq<char>| exists|i: int| 0 <= i < v.len() && v[i]@ == n)
}

/// A list of strings in which no two are equal.
pub open spec fn distinct_names(v: Seq<String>) -> bool {
    forall|i: int, j: int| 0 <= i < j < v.len() ==> v[i]@ != v[j]@
}

/// Input ports that the enabled routes read from.
pub open spec fn needed_inputs(routes: Seq<Route>) -> Set<Seq<char>> {
    Set::new(
        |n: Seq<char>| exists|i: int| 0 <= i < routes.len() && routes[i].enabled && routes[i].source.name@ == n,
    )
}

/// Output ports that the enabled routes write to.
pub open spec fn needed_outputs(routes: Seq<Route>) -> Set<Seq<char>> {
    Set::new(
        |n: Seq<char>|
            exists|i: int|
                0 <= i < routes.len() && routes[i].enabled && routes[i].destination.name@ == n,
    )
}

/// Ports to close and to open, by name.
#[derive(Debug, Clone)]
pub struct SyncPlan {
    pub close_inputs: Vec<String>,
    pub open_inputs: Vec<String>,
    pub close_outputs: Vec<String>,
    pub open_outputs: Vec<String>,
}

/// A packet addressed to an output port.
#[derive(Debug, Clone)]
pub struct Outbound {
    pub port: String,
    pub bytes: Vec<u8>,
}

/// Port and contents of each packet of a list.
pub open spec fn outbound_view(v: Seq<Outbound>) -> Seq<(Seq<char>, Seq<u8>)> {
    v.map_values(|o: Outbound| (o.port@, o.bytes@))
}

/// The same packet for each of the ports, in their order.
pub open spec fn broadcast(ports: Seq<String>, bytes: Seq<u8>) -> Seq<(Seq<char>, Seq<u8>)> {
    ports.map_values(|p: String| (p@, bytes))
}

/// The open connections, by port name.
pub struct PortManager {
    input_connections: Vec<String>,
    output_connections: Vec<String>,
}

/// What a port manager holds.
pub struct PortsModel {
    pub inputs: Seq<String>,
    pub outputs: Seq<String>,
}

impl PortManager {
    /// No port is listed twice.
    #[verifier::type_invariant]
    closed spec fn well_formed(self) -> bool {
        distinct_names(self.input_connections@) && distinct_names(self.output_connections@)
    }
}

impl View for PortManager {
    type V = PortsModel;

    closed spec fn view(&self) -> PortsModel {
        PortsModel { inputs: self.input_connections@, outputs: self.output_connections@ }
    }
}

/// What reconciling open ports with routes does, on one side: keep the open
/// ports that are still needed, close the others, and open the needed ports
/// that are not open yet.
pub open spec fn reconciled(
    open_before: Set<Seq<char>>,
    needed: Set<Seq<char>>,
    open_after: Set<Seq<char>>,
    opened: Set<Seq<char>>,
    closed: Set<Seq<char>>,
) -> bool {
    &&& open_after == open_before.intersect(needed)
    &&& opened == needed.difference(open_before)
    &&& closed == open_before.difference(needed)
}

/// What `sync_with_routes` does to the open ports, with the plan it returns.
pub open spec fn synced(before: PortsModel, routes: Seq<Route>, after: PortsModel, plan: SyncPlan) -> bool {
    &&& reconciled(
        name_set(before.inputs),
        needed_inputs(routes),
        name_set(after.inputs),
        name_set(plan.open_inputs@),
        name_set(plan.close_inputs@),
    )
    &&& reconciled(
        name_set(before.outputs),
        needed_outputs(routes),
        name_set(after.outputs),
        name_set(plan.open_outputs@),
        name_set(plan.close_outputs@),
    )
}

proof fn lemma_name_set_push(v: Seq<String>, x: String)
    ensures
        name_set(v.push(x)) == name_set(v).insert(x@),
{
    assert forall|n: Seq<char>| name_set(v.push(x)).contains(n) implies name_set(v).insert(
        x@,
    ).contains(n) by {
        let j = choose|j: int| 0 <= j < v.push(x).len() && v.push(x)[j]@ == n;
        if j < v.len() {
            assert(v[j]@ == n);
        }
    }
    assert forall|n: Seq<char>| name_set(v).insert(x@).contains(n) implies name_set(
        v.push(x),
    ).contains(n) by {
        if n == x@ {
            assert(v.push(x)[v.len() as int]@ == n);
        } else {
            let j = choose|j: int| 0 <= j < v.len() && v[j]@ == n;
            assert(v.push(x)[j]@ == n);
        }
    }
    assert(name_set(v.push(x)) =~= name_set(v).insert(x@));
}

proof fn lemma_name_set_take(v: Seq<String>, i: int)
    requires
        0 <= i < v.len(),
    ensures
        name_set(v.take(i + 1)) == name_set(v.take(i)).insert(v[i]@),
{
    assert(v.take(i + 1) =~= v.take(i).push(v[i]));
    lemma_name_set_push(v.take(i), v[i]);
}

proof fn lemma_name_set_empty(v: Seq<String>)
    requires
        v.len() == 0,
    ensures
        name_set(v) == Set::<Seq<char>>::empty(),
{
    assert(name_set(v) =~= Set::<Seq<char>>::empty());
}

/// Split the open ports into those that are needed and those to close, and
/// list the needed ports that are not open yet.
fn reconcile(open: &Vec<String>, needed: &Vec<String>) -> (r: (Vec<String>, Vec<String>, Vec<String>))
    ensures
        reconciled(name_set(open@), name_set(needed@), name_set(r.0@), name_set(r.1@), name_set(r.2@)),
        distinct_names(open@) ==> distinct_names(r.0@),
{
    let ghost big_n = name_set(needed@);
    let mut kept: Vec<String> = Vec::new();
    let mut closed: Vec<String> = Vec::new();
    let mut i: usize = 0;
    proof {
        lemma_name_set_empty(kept@);
        lemma_name_set_empty(open@.take(0));
        assert(name_set(kept@) =~= name_set(open@.take(0)).intersect(big_n));
        assert(name_set(closed@) =~= name_set(open@.take(0)).difference(big_n));
    }
    while i < open.len()
        invariant
            0 <= i <= open.len(),
            big_n == name_set(needed@),
            name_set(kept@) == name_set(open@.take(i as int)).intersect(big_n),
            name_set(closed@) == name_set(open@.take(i as int)).difference(big_n),
            distinct_names(open@) ==> distinct_names(kept@),
        decreases open.len() - i,
    {
        let name = open[i].clone();
        let ghost k0 = kept@;
        let ghost c0 = closed@;
        proof {
            lemma_name_set_take(open@, i as int);
        }
        if contains_name(needed, &name) {
            proof {
                if distinct_names(open@) {
                    assert(!name_set(open@.take(i as int)).contains(name@)) by {
                        if name_set(open@.take(i as int)).contains(name@) {
                            let j = choose|j: int|
                                0 <= j < open@.take(i as int).len() && open@.take(i as int)[j]@
                                    == name@;
                            assert(open@[j]@ == open@[i as int]@);
                        }
                    }
                    assert forall|a: int| 0 <= a < k0.len() implies k0[a]@ != name@ by {
                        assert(name_set(k0).contains(k0[a]@));
                    }
                }
            }
            kept.push(name);
            proof {
                lemma_name_set_push(k0, name);
            }
        } else {
            closed.push(name);
            proof {
                lemma_name_set_push(c0, name);
            }
        }
        assert(name_set(kept@) =~= name_set(open@.take(i + 1)).intersect(big_n));
        assert(name_set(closed@) =~= name_set(open@.take(i + 1)).difference(big_n));
        i += 1;
    }
    assert(open@.take(i as int) =~= open@);
    let ghost big_o = name_set(open@);
    let mut opened: Vec<String> = Vec::new();
    let mut j: usize = 0;
    proof {
        lemma_name_set_empty(opened@);
        lemma_name_set_empty(needed@.take(0));
        assert(name_set(opened@) =~= name_set(needed@.take(0)).difference(big_o));
    }
    while j < needed.len()
        invariant
            0 <= j <= needed.len(),
            big_o == name_set(open@),
            name_set(opened@) == name_set(needed@.take(j as int)).difference(big_o),
        decreases needed.len() - j,
    {
        let name = needed[j].clone();
        let ghost o0 = opened@;
        proof {
            lemma_name_set_take(needed@, j as int);
        }
        if !contains_name(open, &name) {
            opened.push(name);
            proof {
                lemma_name_set_push(o0, name);
            }
        }
        assert(name_set(opened@) =~= name_set(needed@.take(j + 1)).difference(big_o));
        j += 1;
    }
    assert(needed@.take(j as int) =~= needed@);
    (kept, opened, closed)
}

/// Whether `v` holds a string equal to `name`.
fn contains_name(v: &Vec<String>, name: &String) -> (r: bool)
    ensures
        r == name_set(v@).contains(name@),
{
    let mut i: usize = 0;
    while i < v.len()
        invariant
            0 <= i <= v.len(),
            forall|k: int| 0 <= k < i ==> v@[k]@ != name@,
        decreases v.len() - i,
    {
        if v[i] == *name {
            return true;
        }
        i += 1;
    }
    false
}

/// The distinct source (`inputs`) or destination names of the enabled routes.
fn needed_ports(routes: &Vec<Route>, inputs: bool) -> (r: Vec<String>)
    ensures
        inputs ==> name_set(r@) == needed_inputs(routes@),
        !inputs ==> name_set(r@) == needed_outputs(routes@),
{
    let mut out: Vec<String> = Vec::new();
    let mut i: usize = 0;
    while i < routes.len()
        invariant
            0 <= i <= routes.len(),
            inputs ==> name_set(out@) == needed_inputs(routes@.take(i as int)),
            !inputs ==> name_set(out@) == needed_outputs(routes@.take(i as int)),
        decreases routes.len() - i,
    {
        let ghost prev = out@;
        let route = &routes[i];
        if route.enabled {
            let name = if inputs {
                &route.source.name
            } else {
                &route.destination.name
            };
            if !contains_name(&out, name) {
                out.push(name.clone());
            }
        }
        proof {
            let t0 = routes@.take(i as int);
            let t1 = routes@.take(i + 1);
            assert forall|k: int| 0 <= k < i implies t1[k] == t0[k] by {}
            assert(t1[i as int] == routes@[i as int]);
            if inputs {
                assert(name_set(out@) =~= needed_inputs(t1)) by {
                    assert forall|n: Seq<char>| name_set(out@).contains(n) implies needed_inputs(
                        t1,
                    ).contains(n) by {
                        let j = choose|j: int| 0 <= j < out@.len() && out@[j]@ == n;
                        if j < prev.len() {
                            assert(name_set(prev).contains(n));
                            let k = choose|k: int|
                                0 <= k < t0.len() && t0[k].enabled && t0[k].source.name@ == n;
                            assert(t1[k] == t0[k]);
                        } else {
                            assert(t1[i as int].source.name@ == n);
                        }
                    }
                    assert forall|n: Seq<char>| needed_inputs(t1).contains(n) implies name_set(
                        out@,
                    ).contains(n) by {
                        let k = choose|k: int|
                            0 <= k < t1.len() && t1[k].enabled && t1[k].source.name@ == n;
                        if k < i {
                            assert(t0[k] == t1[k]);
                            assert(needed_inputs(t0).contains(n));
                            let j = choose|j: int| 0 <= j < prev.len() && prev[j]@ == n;
                            assert(out@[j] == prev[j]);
                        } else if name_set(prev).contains(n) {
                            let j = choose|j: int| 0 <= j < prev.len() && prev[j]@ == n;
                            assert(out@[j] == prev[j]);
                        } else {
                            assert(out@.last()@ == n);
                        }
                    }
                }
            } else {
                assert(name_set(out@) =~= needed_outputs(t1)) by {
                    assert forall|n: Seq<char>| name_set(out@).contains(n) implies needed_outputs(
                        t1,
                    ).contains(n) by {
                        let j = choose|j: int| 0 <= j < out@.len() && out@[j]@ == n;
                        if j < prev.len() {
                            assert(name_set(prev).contains(n));
                            let k = choose|k: int|
                                0 <= k < t0.len() && t0[k].enabled && t0[k].destination.name@ == n;
                            assert(t1[k] == t0[k]);
                        } else {
                            assert(t1[i as int].destination.name@ == n);
                        }
                    }
                    assert forall|n: Seq<char>| needed_outputs(t1).contains(n) implies name_set(
                        out@,
                    ).contains(n) by {
                        let k = choose|k: int|
                            0 <= k < t1.len() && t1[k].enabled && t1[k].destination.name@ == n;
                        if k < i {
                            assert(t0[k] == t1[k]);
                            assert(needed_outputs(t0).contains(n));
                            let j = choose|j: int| 0 <= j < prev.len() && prev[j]@ == n;
                            assert(out@[j] == prev[j]);
                        } else if name_set(prev).contains(n) {
                            let j = choose|j: int| 0 <= j < prev.len() && prev[j]@ == n;
                            assert(out@[j] == prev[j]);
                        } else {
                            assert(out@.last()@ == n);
                        }
                    }
                }
            }
        }
        i += 1;
    }
    assert(routes@.take(i as int) =~= routes@);
    out
}

impl PortManager {
    /// A manager with no open ports.
    pub fn new() -> (r: PortManager)
        ensures
            r@.inputs.len() == 0,
            r@.outputs.len() == 0,
    {
        assert(distinct_names(Seq::<String>::empty()));
        PortManager { input_connections: Vec::new(), output_connections: Vec::new() }
    }

    /// Names of the open inputs.
    pub fn input_connections(&self) -> (r: &Vec<String>)
        ensures
            r@ == self@.inputs,
            distinct_names(r@),
    {
        proof {
            use_type_invariant(self);
        }
        &self.input_connections
    }

    /// Names of the open outputs.
    pub fn output_connections(&self) -> (r: &Vec<String>)
        ensures
            r@ == self@.outputs,
            distinct_names(r@),
    {
        proof {
            use_type_invariant(self);
        }
        &self.output_connections
    }

    /// Close every port. The plan lists the ports that were open.
    pub fn clear_all(&mut self) -> (r: SyncPlan)
        ensures
            final(self)@.inputs.len() == 0,
            final(self)@.outputs.len() == 0,
            r.close_inputs@ == old(self)@.inputs,
            r.close_outputs@ == old(self)@.outputs,
            r.open_inputs@.len() == 0,
            r.open_outputs@.len() == 0,
    {
        let mut open = PortManager::new();
        core::mem::swap(self, &mut open);
        let PortManager { input_connections: close_inputs, output_connections: close_outputs } = open;
        SyncPlan { close_inputs, open_inputs: Vec::new(), close_outputs, open_outputs: Vec::new() }
    }

    /// Reconcile the open ports with the ports that the enabled routes name:
    /// ports no longer needed are closed, and the plan lists the needed
    /// ports that are to be opened.
    pub fn sync_with_routes(&mut self, routes: &Vec<Route>) -> (r: SyncPlan)
        ensures
            synced(old(self)@, routes@, final(self)@, r),
    {
        proof {
            use_type_invariant(&*self);
        }
        let needed_inputs = Self::needed_input_ports(routes);
        let needed_outputs = Self::needed_output_ports(routes);
        let (kept_in, open_inputs, close_inputs) = reconcile(&self.input_connections, &needed_inputs);
        let (kept_out, open_outputs, close_outputs) = reconcile(
            &self.output_connections,
            &needed_outputs,
        );
        self.input_connections = kept_in;
        self.output_connections = kept_out;
        SyncPlan { close_inputs, open_inputs, close_outputs, open_outputs }
    }

    /// The distinct input ports that the enabled routes read from.
    pub fn needed_input_ports(routes: &Vec<Route>) -> (r: Vec<String>)
        ensures
            name_set(r@) == needed_inputs(routes@),
    {
        needed_ports(routes, true)
    }

    /// The distinct output ports that the enabled routes write to.
    pub fn needed_output_ports(routes: &Vec<Route>) -> (r: Vec<String>)
        ensures
            name_set(r@) == needed_outputs(routes@),
    {
        needed_ports(routes, false)
    }

    /// Record that opening the input `name` succeeded.
    pub fn input_opened(&mut self, name: String)
        ensures
            name_set(final(self)@.inputs) == name_set(old(self)@.inputs).insert(name@),
            final(self)@.outputs == old(self)@.outputs,
    {
        let mut current = PortManager::new();
        core::mem::swap(self, &mut current);
        proof {
            use_type_invariant(&current);
        }
        let PortManager { mut input_connections, output_connections } = current;
        if !contains_name(&input_connections, &name) {
            proof {
                lemma_name_set_push(input_connections@, name);
                assert forall|a: int| 0 <= a < input_connections@.len() implies input_connections@[a]@
                    != name@ by {
                    assert(name_set(input_connections@).contains(input_connections@[a]@));
                }
            }
            input_connections.push(name);
        } else {
            assert(name_set(input_connections@).insert(name@) =~= name_set(input_connections@));
        }
        *self = PortManager { input_connections, output_connections };
    }

    /// Record that opening the output `name` succeeded.
    pub fn output_opened(&mut self, name: String)
        ensures
            name_set(final(self)@.outputs) == name_set(old(self)@.outputs).insert(name@),
            final(self)@.inputs == old(self)@.inputs,
    {
        let mut current = PortManager::new();
        core::mem::swap(self, &mut current);
        proof {
            use_type_invariant(&current);
        }
        let PortManager { input_connections, mut output_connections } = current;
        if !contains_name(&output_connections, &name) {
            proof {
                lemma_name_set_push(output_connections@, name);
                assert forall|a: int| 0 <= a < output_connections@.len() implies output_connections@[a]@
                    != name@ by {
                    assert(name_set(output_connections@).contains(output_connections@[a]@));
                }
            }
            output_connections.push(name);
        } else {
            assert(name_set(output_connections@).insert(name@) =~= name_set(output_connections@));
        }
        *self = PortManager { input_connections, output_connections };
    }

    /// Address a packet to the output `output_name`; fails when that output
    /// is not open.
    pub fn send_to(&self, output_name: &String, bytes: &[u8]) -> (r: Result<Outbound, EngineError>)
        ensures
            r is Ok <==> name_set(self@.outputs).contains(output_name@),
            r matches Ok(o) ==> o.port@ == output_name@ && o.bytes@ == bytes@,
            r matches Err(e) ==> e matches EngineError::SendFailed { port_name, reason } && port_name@
                == output_name@ && reason@ == "Port not connected"@,
    {
        if contains_name(&self.output_connections, output_name) {
            Ok(Outbound { port: output_name.clone(), bytes: vstd::slice::slice_to_vec(bytes) })
        } else {
            Err(
                EngineError::SendFailed {
                    port_name: output_name.clone(),
                    reason: "Port not connected".to_owned(),
                },
            )
        }
    }

    /// Address a packet to every open output, in the order they were opened.
    pub fn send_to_all(&self, bytes: &[u8]) -> (r: Vec<Outbound>)
        ensures
            outbound_view(r@) == broadcast(self@.outputs, bytes@),
    {
        let mut out: Vec<Outbound> = Vec::new();
        let mut i: usize = 0;
        while i < self.output_connections.len()
            invariant
                0 <= i <= self.output_connections.len(),
                outbound_view(out@) == broadcast(self.output_connections@.take(i as int), bytes@),
            decreases self.output_connections.len() - i,
        {
            let ghost prev = out@;
            out.push(
                Outbound {
                    port: self.output_connections[i].clone(),
                    bytes: vstd::slice::slice_to_vec(bytes),
                },
            );
            assert(outbound_view(out@) =~= outbound_view(prev).push(
                (self.output_connections@[i as int]@, bytes@),
            ));
            assert(self.output_connections@.take(i + 1) =~= self.output_connections@.take(
                i as int,
            ).push(self.output_connections@[i as int]));
            assert(broadcast(self.output_connections@.take(i + 1), bytes@) =~= broadcast(
                self.output_connections@.take(i as int),
                bytes@,
            ).push((self.output_connections@[i as int]@, bytes@)));
            i += 1;
        }
        assert(self.output_connections@.take(i as int) =~= self.output_connections@);
        out
    }
}

} // verus!

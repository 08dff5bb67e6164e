//! The engine as a state machine: routes, clock and open ports, and what
//! the engine does for each clock poll, inbound packet and command.
//!
//! Each step returns the events to publish and the packets to send; the
//! caller performs them and feeds back what the operating system reports.
use vstd::prelude::*;

use crate::midi::clock::{
    continued, started, state_of, stopped, tick_step, with_bpm, ClockGenerator, ClockModel,
};
use crate::midi::port_manager::{
    broadcast, name_set, needed_inputs, needed_outputs, outbound_view, synced, Outbound, PortManager, PortsModel, SyncPlan,
};
use crate::midi::router::{
    apply_cc_mappings, cc_output, decode, packets_view, parse_midi_message, passes_filter,
    should_route,
};
use crate::midi::transport::{
    get_transport_type, is_transport_message, transport_of_packet, TransportMessage,
};
use crate::types::{Bpm, ClockState, EngineError, MidiActivity, MidiPort, Route};

verus! {

/// One-shot completion signal of a port refresh.
#[verifier::external_type_specification]
#[verifier::external_body]
#[verifier::reject_recursive_types(T)]
pub struct ExSender<T>(crossbeam_channel::Sender<T>);

/// Requests to the engine. Tempo is in thousandths of a beat per minute.
pub enum EngineCommand {
    RefreshPorts {
        /// Signalled once the refresh is complete.
        done_tx: Option<crossbeam_channel::Sender<()>>,
    },
    SetRoutes(Vec<Route>),
    SetBpm(u64),
    SendStart,
    SendStop,
    Shutdown,
}

/// What the engine publishes.
#[derive(Debug, Clone)]
pub enum EngineEvent {
    PortsChanged { inputs: Vec<MidiPort>, outputs: Vec<MidiPort> },
    MidiActivity(MidiActivity),
    ClockStateChanged(ClockState),
    Error(EngineError),
}

/// What handling an inbound packet yields: events to publish, then packets
/// to send, in order.
pub struct MidiDispatch {
    pub events: Vec<EngineEvent>,
    pub sends: Vec<Outbound>,
}

/// What handling a command yields.
pub enum CommandOutcome {
    /// Close these ports, rescan the system's ports, publish the port lists,
    /// then signal completion.
    Refresh { closed: SyncPlan, done_tx: Option<crossbeam_channel::Sender<()>> },
    /// Close and open ports as planned.
    Reconnect(SyncPlan),
    /// Publish the clock state, then send the packets.
    Clock { state: ClockState, sends: Vec<Outbound> },
    /// Leave the loop.
    Exit,
}

/// What an engine holds.
pub struct EngineModel {
    pub routes: Seq<Route>,
    pub clock: ClockModel,
    pub ports: PortsModel,
}

/// The clock after an inbound packet, and whether its observable state
/// changed: Start and Continue set a stopped clock running (Start on a fresh
/// schedule), Stop stops a running clock; other packets leave it.
pub open spec fn transport_step(c: ClockModel, bytes: Seq<u8>) -> (ClockModel, bool) {
    match transport_of_packet(bytes) {
        Some(TransportMessage::Start) => if !c.running {
            (started(c), true)
        } else {
            (c, false)
        },
        Some(TransportMessage::Continue) => if !c.running {
            (continued(c), true)
        } else {
            (c, false)
        },
        Some(TransportMessage::Stop) => if c.running {
            (stopped(c), true)
        } else {
            (c, false)
        },
        _ => (c, false),
    }
}

/// The transport byte that an inbound packet has forwarded to every output.
pub open spec fn forwarded(bytes: Seq<u8>) -> Seq<u8> {
    match transport_of_packet(bytes) {
        Some(TransportMessage::Start) => seq![0xFAu8],
        Some(TransportMessage::Continue) => seq![0xFBu8],
        Some(TransportMessage::Stop) => seq![0xFCu8],
        _ => seq![],
    }
}

/// Whether a route takes a packet that arrived on `port`.
pub open spec fn route_applies(r: Route, port: Seq<char>, bytes: Seq<u8>) -> bool {
    r.enabled && r.source.name@ == port && passes_filter(bytes, r.channels)
}

/// The packets that one route sends for a packet that arrived on `port`.
pub open spec fn route_sends(r: Route, port: Seq<char>, bytes: Seq<u8>) -> Seq<(Seq<char>, Seq<u8>)> {
    if route_applies(r, port, bytes) {
        cc_output(bytes, r).map_values(|p: Seq<u8>| (r.destination.name@, p))
    } else {
        seq![]
    }
}

/// The packets that the routes send for a packet that arrived on `port`,
/// route after route.
pub open spec fn routed(routes: Seq<Route>, port: Seq<char>, bytes: Seq<u8>) -> Seq<(Seq<char>, Seq<u8>)>
    decreases routes.len(),
{
    if routes.len() == 0 {
        seq![]
    } else {
        routed(routes.drop_last(), port, bytes) + route_sends(routes.last(), port, bytes)
    }
}

/// Everything sent for an inbound packet: a forwarded transport byte goes to
/// every open output; other packets go through the routes, while Clock is
/// dropped.
pub open spec fn midi_sends(m: EngineModel, port: Seq<char>, bytes: Seq<u8>) -> Seq<(Seq<char>, Seq<u8>)> {
    if transport_of_packet(bytes) is Some {
        if forwarded(bytes).len() > 0 {
            broadcast(m.ports.outputs, forwarded(bytes))
        } else {
            seq![]
        }
    } else {
        routed(m.routes, port, bytes)
    }
}

/// An activity record that describes `bytes` as received on `port` at
/// `timestamp`.
pub open spec fn describes(a: MidiActivity, timestamp: u64, port: Seq<char>, bytes: Seq<u8>) -> bool {
    &&& a.timestamp == timestamp
    &&& a.port@ == port
    &&& a.raw@ == bytes
    &&& decode(bytes) matches Some(d) && (a.channel, a.kind) == d
}

/// What a command does to the engine, with the outcome it returns.
pub open spec fn command_effect(
    before: EngineModel,
    cmd: EngineCommand,
    after: EngineModel,
    r: CommandOutcome,
) -> bool {
    match cmd {
        EngineCommand::RefreshPorts { done_tx } => r matches CommandOutcome::Refresh {
            closed,
            done_tx: d,
        } && {
            &&& d == done_tx
            &&& closed.close_inputs@ == before.ports.inputs
            &&& closed.close_outputs@ == before.ports.outputs
            &&& closed.open_inputs@.len() == 0
            &&& closed.open_outputs@.len() == 0
            &&& after.ports.inputs.len() == 0
            &&& after.ports.outputs.len() == 0
            &&& after.routes == before.routes
            &&& after.clock == before.clock
        },
        EngineCommand::SetRoutes(routes) => r matches CommandOutcome::Reconnect(plan) && {
            &&& after.routes == routes@
            &&& synced(before.ports, routes@, after.ports, plan)
            &&& after.clock == before.clock
        },
        EngineCommand::SetBpm(bpm) => r matches CommandOutcome::Clock { state, sends } && {
            &&& after.clock == with_bpm(before.clock, bpm)
            &&& state == state_of(after.clock)
            &&& sends@.len() == 0
            &&& after.routes == before.routes
            &&& after.ports == before.ports
        },
        EngineCommand::SendStart => r matches CommandOutcome::Clock { state, sends } && {
            &&& after.clock == started(before.clock)
            &&& state == state_of(after.clock)
            &&& outbound_view(sends@) == broadcast(before.ports.outputs, seq![0xFAu8])
            &&& after.routes == before.routes
            &&& after.ports == before.ports
        },
        EngineCommand::SendStop => r matches CommandOutcome::Clock { state, sends } && {
            &&& after.clock == stopped(before.clock)
            &&& state == state_of(after.clock)
            &&& outbound_view(sends@) == broadcast(before.ports.outputs, seq![0xFCu8])
            &&& after.routes == before.routes
            &&& after.ports == before.ports
        },
        EngineCommand::Shutdown => {
            &&& r is Exit
            &&& after.routes == before.routes
            &&& after.clock == before.clock
            &&& after.ports == before.ports
        },
    }
}

/// Setting the same tempo twice publishes one clock state per command, and
/// the two states are equal.
pub proof fn lemma_set_bpm_twice(
    e0: EngineModel,
    e1: EngineModel,
    e2: EngineModel,
    bpm: u64,
    r1: CommandOutcome,
    r2: CommandOutcome,
)
    requires
        command_effect(e0, EngineCommand::SetBpm(bpm), e1, r1),
        command_effect(e1, EngineCommand::SetBpm(bpm), e2, r2),
    ensures
        r1 matches CommandOutcome::Clock { state: s1, sends: d1 } && r2 matches CommandOutcome::Clock {
            state: s2,
            sends: d2,
        } && s1 == s2 && d1@.len() == 0 && d2@.len() == 0,
        e2.clock == e1.clock,
{
}

/// Replacing the routes with none and then with `routes` leaves, once the
/// planned ports are open, exactly the ports that the enabled routes of
/// `routes` name: nothing stays open from before, and nothing is closed by
/// the second replacement.
pub proof fn lemma_routes_reset_then_set(
    e0: EngineModel,
    e1: EngineModel,
    e2: EngineModel,
    none: Vec<Route>,
    routes: Vec<Route>,
    r1: CommandOutcome,
    r2: CommandOutcome,
)
    requires
        none@.len() == 0,
        command_effect(e0, EngineCommand::SetRoutes(none), e1, r1),
        command_effect(e1, EngineCommand::SetRoutes(routes), e2, r2),
    ensures
        r2 matches CommandOutcome::Reconnect(plan) && {
            &&& name_set(e2.ports.inputs).union(name_set(plan.open_inputs@)) == needed_inputs(
                routes@,
            )
            &&& name_set(e2.ports.outputs).union(name_set(plan.open_outputs@)) == needed_outputs(
                routes@,
            )
            &&& name_set(e2.ports.inputs).is_empty()
            &&& name_set(e2.ports.outputs).is_empty()
            &&& name_set(plan.close_inputs@).is_empty()
            &&& name_set(plan.close_outputs@).is_empty()
        },
{
    assert(needed_inputs(none@) =~= Set::empty());
    assert(needed_outputs(none@) =~= Set::empty());
    assert(name_set(e1.ports.inputs) =~= Set::empty());
    assert(name_set(e1.ports.outputs) =~= Set::empty());
    if let CommandOutcome::Reconnect(plan) = r2 {
        assert(name_set(e2.ports.inputs) =~= Set::empty());
        assert(name_set(e2.ports.outputs) =~= Set::empty());
        assert(name_set(plan.close_inputs@) =~= Set::empty());
        assert(name_set(plan.close_outputs@) =~= Set::empty());
        assert(name_set(e2.ports.inputs).union(name_set(plan.open_inputs@)) =~= needed_inputs(
            routes@,
        ));
        assert(name_set(e2.ports.outputs).union(name_set(plan.open_outputs@)) =~= needed_outputs(
            routes@,
        ));
    }
}

/// The engine's state: its routes, its clock and its open ports.
pub struct Engine {
    routes: Vec<Route>,
    clock: ClockGenerator,
    ports: PortManager,
}

impl View for Engine {
    type V = EngineModel;

    closed spec fn view(&self) -> EngineModel {
        EngineModel { routes: self.routes@, clock: self.clock@, ports: self.ports@ }
    }
}

impl Engine {
    /// No routes, no open ports, and a stopped clock at 120 beats per minute.
    pub fn new() -> (r: Engine)
        ensures
            r@.routes.len() == 0,
            r@.clock == (ClockModel { bpm: Bpm::DEFAULT, running: false, last_tick: None }),
            r@.ports.inputs.len() == 0,
            r@.ports.outputs.len() == 0,
    {
        Engine { routes: Vec::new(), clock: ClockGenerator::new(Bpm::DEFAULT), ports: PortManager::new() }
    }

    pub fn routes(&self) -> (r: &Vec<Route>)
        ensures
            r@ == self@.routes,
    {
        &self.routes
    }

    pub fn ports(&self) -> (r: &PortManager)
        ensures
            r@ == self@.ports,
    {
        &self.ports
    }

    pub fn clock_state(&self) -> (r: ClockState)
        ensures
            r == state_of(self@.clock),
    {
        self.clock.state()
    }

    /// Record that opening the input `name` succeeded.
    pub fn input_opened(&mut self, name: String)
        ensures
            final(self)@.ports == (PortsModel { inputs: final(self)@.ports.inputs, ..old(self)@.ports }),
            name_set(final(self)@.ports.inputs)
                == name_set(old(self)@.ports.inputs).insert(name@),
            final(self)@.routes == old(self)@.routes,
            final(self)@.clock == old(self)@.clock,
    {
        self.ports.input_opened(name);
    }

    /// Record that opening the output `name` succeeded.
    pub fn output_opened(&mut self, name: String)
        ensures
            final(self)@.ports == (PortsModel { outputs: final(self)@.ports.outputs, ..old(self)@.ports }),
            name_set(final(self)@.ports.outputs)
                == name_set(old(self)@.ports.outputs).insert(name@),
            final(self)@.routes == old(self)@.routes,
            final(self)@.clock == old(self)@.clock,
    {
        self.ports.output_opened(name);
    }

    /// Poll the clock at `now` (nanoseconds); when a pulse is due, a Timing
    /// Clock byte goes to every open output.
    pub fn tick(&mut self, now: u64) -> (r: Vec<Outbound>)
        ensures
            final(self)@.clock == tick_step(old(self)@.clock, now).0,
            final(self)@.routes == old(self)@.routes,
            final(self)@.ports == old(self)@.ports,
            tick_step(old(self)@.clock, now).1 ==> outbound_view(r@) == broadcast(
                old(self)@.ports.outputs,
                seq![0xF8u8],
            ),
            !tick_step(old(self)@.clock, now).1 ==> r@.len() == 0,
    {
        if self.clock.should_tick(now) {
            let clock = TransportMessage::Clock.as_bytes();
            self.ports.send_to_all(clock.as_slice())
        } else {
            Vec::new()
        }
    }
}

impl Engine {
    /// The packets that the routes send for a packet that arrived on
    /// `port_name`, route after route and, within a route, in the order of
    /// its control-change mapping.
    fn route_packet(&self, port_name: &String, bytes: &[u8]) -> (r: Vec<Outbound>)
        ensures
            outbound_view(r@) == routed(self@.routes, port_name@, bytes@),
    {
        let mut out: Vec<Outbound> = Vec::new();
        let mut i: usize = 0;
        assert(outbound_view(out@) =~= routed(self.routes@.take(0), port_name@, bytes@));
        while i < self.routes.len()
            invariant
                0 <= i <= self.routes.len(),
                outbound_view(out@) == routed(self.routes@.take(i as int), port_name@, bytes@),
            decreases self.routes.len() - i,
        {
            let route = &self.routes[i];
            let ghost before = outbound_view(out@);
            if route.enabled && route.source.name == *port_name && should_route(bytes, &route.channels) {
                let packets = apply_cc_mappings(bytes, route);
                let mut j: usize = 0;
                assert(packets_view(packets@).take(0).map_values(
                    |p: Seq<u8>| (route.destination.name@, p),
                ) =~= seq![]);
                assert(outbound_view(out@) =~= before + packets_view(packets@).take(0).map_values(
                    |p: Seq<u8>| (route.destination.name@, p),
                ));
                while j < packets.len()
                    invariant
                        0 <= j <= packets.len(),
                        route == self.routes@[i as int],
                        outbound_view(out@) == before + packets_view(packets@).take(j as int).map_values(
                            |p: Seq<u8>| (route.destination.name@, p),
                        ),
                    decreases packets.len() - j,
                {
                    let ghost prev = out@;
                    out.push(
                        Outbound {
                            port: route.destination.name.clone(),
                            bytes: vstd::slice::slice_to_vec(packets[j].as_slice()),
                        },
                    );
                    assert(outbound_view(out@) =~= outbound_view(prev).push(
                        (route.destination.name@, packets@[j as int]@),
                    ));
                    assert(packets_view(packets@).take(j + 1).map_values(
                        |p: Seq<u8>| (route.destination.name@, p),
                    ) =~= packets_view(packets@).take(j as int).map_values(
                        |p: Seq<u8>| (route.destination.name@, p),
                    ).push((route.destination.name@, packets@[j as int]@)));
                    j += 1;
                }
                assert(packets_view(packets@).take(j as int) =~= packets_view(packets@));
                assert(route_applies(*route, port_name@, bytes@));
            } else {
                assert(!route_applies(*route, port_name@, bytes@));
                assert(outbound_view(out@) =~= before + route_sends(*route, port_name@, bytes@));
            }
            assert(self.routes@.take(i + 1).drop_last() =~= self.routes@.take(i as int));
            assert(self.routes@.take(i + 1).last() == self.routes@[i as int]);
            i += 1;
        }
        assert(self.routes@.take(i as int) =~= self.routes@);
        out
    }

    /// Handle a packet that arrived on `port_name` at `timestamp`.
    ///
    /// Start, Continue and Stop update the clock and are forwarded to every
    /// open output; a change of the clock's state is published. A decodable
    /// packet is published as activity. Packets other than transport and
    /// clock bytes then go through every route that takes them.
    pub fn handle_midi(&mut self, port_name: &String, timestamp: u64, bytes: &[u8]) -> (r:
        MidiDispatch)
        ensures
            final(self)@.clock == transport_step(old(self)@.clock, bytes@).0,
            final(self)@.routes == old(self)@.routes,
            final(self)@.ports == old(self)@.ports,
            r.events@.len() == (if transport_step(old(self)@.clock, bytes@).1 {
                1int
            } else {
                0
            }) + (if decode(bytes@) is Some {
                1int
            } else {
                0
            }),
            transport_step(old(self)@.clock, bytes@).1 ==> r.events@[0]
                == EngineEvent::ClockStateChanged(state_of(final(self)@.clock)),
            decode(bytes@) is Some ==> (r.events@.last() matches EngineEvent::MidiActivity(a)
                && describes(a, timestamp, port_name@, bytes@)),
            outbound_view(r.sends@) == midi_sends(old(self)@, port_name@, bytes@),
    {
        let mut events: Vec<EngineEvent> = Vec::new();
        let mut sends: Vec<Outbound> = Vec::new();
        let transport = get_transport_type(bytes);
        match transport {
            Some(TransportMessage::Start) => {
                if !self.clock.is_running() {
                    self.clock.start();
                    events.push(EngineEvent::ClockStateChanged(self.clock.state()));
                }
                let b = TransportMessage::Start.as_bytes();
                sends = self.ports.send_to_all(b.as_slice());
            },
            Some(TransportMessage::Continue) => {
                if !self.clock.is_running() {
                    self.clock.continue_playback();
                    events.push(EngineEvent::ClockStateChanged(self.clock.state()));
                }
                let b = TransportMessage::Continue.as_bytes();
                sends = self.ports.send_to_all(b.as_slice());
            },
            Some(TransportMessage::Stop) => {
                if self.clock.is_running() {
                    self.clock.stop();
                    events.push(EngineEvent::ClockStateChanged(self.clock.state()));
                }
                let b = TransportMessage::Stop.as_bytes();
                sends = self.ports.send_to_all(b.as_slice());
            },
            _ => {},
        }
        if let Some(activity) = parse_midi_message(timestamp, port_name.as_str(), bytes) {
            events.push(EngineEvent::MidiActivity(activity));
        }
        if is_transport_message(bytes) {
            return MidiDispatch { events, sends };
        }
        let sends = self.route_packet(port_name, bytes);
        MidiDispatch { events, sends }
    }

    /// Carry out a command.
    pub fn handle_command(&mut self, cmd: EngineCommand) -> (r: CommandOutcome)
        ensures
            command_effect(old(self)@, cmd, final(self)@, r),
    {
        match cmd {
            EngineCommand::RefreshPorts { done_tx } => {
                let closed = self.ports.clear_all();
                CommandOutcome::Refresh { closed, done_tx }
            },
            EngineCommand::SetRoutes(routes) => {
                self.routes = routes;
                let plan = self.ports.sync_with_routes(&self.routes);
                CommandOutcome::Reconnect(plan)
            },
            EngineCommand::SetBpm(bpm) => {
                self.clock.set_bpm(bpm);
                CommandOutcome::Clock { state: self.clock.state(), sends: Vec::new() }
            },
            EngineCommand::SendStart => {
                self.clock.start();
                let b = TransportMessage::Start.as_bytes();
                CommandOutcome::Clock { state: self.clock.state(), sends: self.ports.send_to_all(b.as_slice()) }
            },
            EngineCommand::SendStop => {
                self.clock.stop();
                let b = TransportMessage::Stop.as_bytes();
                CommandOutcome::Clock { state: self.clock.state(), sends: self.ports.send_to_all(b.as_slice()) }
            },
            EngineCommand::Shutdown => CommandOutcome::Exit,
        }
    }
}

} // verus!

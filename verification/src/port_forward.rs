//! The port-forward controller: the routing table from host ports to guest
//! endpoints, the back-side streams that are open for each host port, and the
//! set of host ports that are being listened on.
//!
//! The controller decides; it opens no socket. Each request is answered with
//! the action that the caller has to carry out, and streams are known to the
//! controller by a number that the caller gave them.

use std::collections::HashMap;
use std::collections::HashSet;
use vstd::prelude::*;

verus! {

broadcast use vstd::std_specs::hash::group_hash_axioms;

/// An IPv4 address, by its four octets from left to right.
#[derive(Debug, Clone, Copy, PartialEq, Eq, Structural)]
pub struct Ipv4 {
    pub a: u8,
    pub b: u8,
    pub c: u8,
    pub d: u8,
}

/// Where the connections to a host port are relayed to.
#[derive(Debug, Clone, Copy, PartialEq, Eq, Structural)]
pub struct Endpoint {
    pub ip: Ipv4,
    pub port: u16,
}

/// What the controller is asked to handle.
#[derive(Debug, Clone, Copy, PartialEq, Eq, Structural)]
pub enum PortforwardRequest {
    /// The listener of `src_port` accepted the connection `frontend_stream`.
    NewLocalClientConnected { frontend_stream: u64, src_port: u16 },
    /// A guest advertises that `src_port` leads to `dst_ip:dst_port`.
    UpdateRoutingRule { src_port: u16, dst_ip: Ipv4, dst_port: u16 },
}

/// What the caller has to do after a request.
#[derive(Debug, Clone, PartialEq, Eq)]
pub enum PortforwardAction {
    /// Dial `dst` and splice the accepted connection onto it.
    Relay { frontend_stream: u64, dst: Endpoint },
    /// The port has no rule: close the accepted connection.
    CloseFrontend { frontend_stream: u64 },
    /// The rule stands. Shut down the back-side streams in `close`, both
    /// directions, and start an accept loop on the port if `listen` is set.
    RuleUpdated { close: Vec<u64>, listen: bool },
}

/// A `PortforwardAction` over mathematical values.
pub enum ActionView {
    Relay { frontend_stream: u64, dst: Endpoint },
    CloseFrontend { frontend_stream: u64 },
    RuleUpdated { close: Seq<u64>, listen: bool },
}

impl View for PortforwardAction {
    type V = ActionView;

    open spec fn view(&self) -> ActionView {
        match *self {
            PortforwardAction::Relay { frontend_stream, dst } => ActionView::Relay {
                frontend_stream,
                dst,
            },
            PortforwardAction::CloseFrontend { frontend_stream } => ActionView::CloseFrontend {
                frontend_stream,
            },
            PortforwardAction::RuleUpdated { close, listen } => ActionView::RuleUpdated {
                close: close@,
                listen,
            },
        }
    }
}

/// The controller's state as mathematical values.
#[verifier::ext_equal]
pub struct ForwardTable {
    /// The rule of each host port that has one.
    pub rules: Map<u16, Endpoint>,
    /// The back-side streams that were opened under the current rule of a
    /// host port, oldest first.
    pub backends: Map<u16, Seq<u64>>,
    /// The host ports with an accept loop.
    pub listening: Set<u16>,
}

impl ForwardTable {
    pub open spec fn empty() -> ForwardTable {
        ForwardTable { rules: Map::empty(), backends: Map::empty(), listening: Set::empty() }
    }

    /// The open back-side streams of `port`; none where nothing is recorded.
    pub open spec fn streams(self, port: u16) -> Seq<u64> {
        if self.backends.contains_key(port) {
            self.backends[port]
        } else {
            Seq::empty()
        }
    }

    /// Whether a rule `port -> dst` would replace a rule with another
    /// destination.
    pub open spec fn replaces(self, port: u16, dst: Endpoint) -> bool {
        self.rules.contains_key(port) && self.rules[port] != dst
    }

    /// The table after the rule `port -> dst` was installed: the streams of a
    /// replaced rule are forgotten, and the port is listened on from then on.
    pub open spec fn with_rule(self, port: u16, dst: Endpoint) -> ForwardTable {
        ForwardTable {
            rules: self.rules.insert(port, dst),
            backends: if self.replaces(port, dst) {
                self.backends.remove(port)
            } else {
                self.backends
            },
            listening: self.listening.insert(port),
        }
    }

    /// The table after `stream` was opened towards the destination of `port`.
    pub open spec fn with_backend(self, port: u16, stream: u64) -> ForwardTable {
        ForwardTable { backends: self.backends.insert(port, self.streams(port).push(stream)), ..self }
    }

    /// The table after `req`.
    pub open spec fn after(self, req: PortforwardRequest) -> ForwardTable {
        match req {
            PortforwardRequest::NewLocalClientConnected { .. } => self,
            PortforwardRequest::UpdateRoutingRule { src_port, dst_ip, dst_port } => self.with_rule(
                src_port,
                Endpoint { ip: dst_ip, port: dst_port },
            ),
        }
    }

    /// What the caller is told to do on `req`.
    pub open spec fn action_on(self, req: PortforwardRequest) -> ActionView {
        match req {
            PortforwardRequest::NewLocalClientConnected { frontend_stream, src_port } => {
                if self.rules.contains_key(src_port) {
                    ActionView::Relay { frontend_stream, dst: self.rules[src_port] }
                } else {
                    ActionView::CloseFrontend { frontend_stream }
                }
            },
            PortforwardRequest::UpdateRoutingRule { src_port, dst_ip, dst_port } => {
                let dst = Endpoint { ip: dst_ip, port: dst_port };
                ActionView::RuleUpdated {
                    close: if self.replaces(src_port, dst) {
                        self.streams(src_port)
                    } else {
                        Seq::empty()
                    },
                    listen: !self.listening.contains(src_port),
                }
            },
        }
    }

    /// What holds of every table that the controller can reach: a port with a
    /// rule is listened on, and streams are recorded only for ports with a rule.
    pub open spec fn consistent(self) -> bool {
        &&& self.rules.dom().subset_of(self.listening)
        &&& self.backends.dom().subset_of(self.rules.dom())
    }
}

/// The controller.
pub struct PortForwarder {
    routing_table: HashMap<u16, Endpoint>,
    backend_streams: HashMap<u16, Vec<u64>>,
    listeners: HashSet<u16>,
}

impl View for PortForwarder {
    type V = ForwardTable;

    closed spec fn view(&self) -> ForwardTable {
        ForwardTable {
            rules: self.routing_table@,
            backends: Map::new(
                |port: u16| self.backend_streams@.contains_key(port),
                |port: u16| self.backend_streams@[port]@,
            ),
            listening: self.listeners@,
        }
    }
}

impl PortForwarder {
    /// A controller without rules, streams or listeners.
    pub fn new() -> (forwarder: Self)
        ensures
            forwarder@ == ForwardTable::empty(),
    {
        let forwarder = PortForwarder {
            routing_table: HashMap::new(),
            backend_streams: HashMap::new(),
            listeners: HashSet::new(),
        };
        assert(forwarder@.backends =~= Map::empty());
        forwarder
    }

    /// The rule of `src_port`, if it has one.
    pub fn lookup(&self, src_port: u16) -> (dst: Option<Endpoint>)
        ensures
            dst == if self@.rules.contains_key(src_port) {
                Some(self@.rules[src_port])
            } else {
                None
            },
    {
        match self.routing_table.get(&src_port) {
            Some(dst) => Some(*dst),
            None => None,
        }
    }

    /// Handles one request and says what the caller has to do.
    ///
    /// An accepted connection is relayed to the destination of its port's
    /// rule, or closed where the port has none. A rule is inserted or
    /// replaced; where it replaces a rule with another destination, the
    /// back-side streams of the port are handed out to be shut down and are
    /// forgotten. A port is listened on from its first rule on.
    pub fn handle(&mut self, req: PortforwardRequest) -> (action: PortforwardAction)
        ensures
            final(self)@ == old(self)@.after(req),
            action@ == old(self)@.action_on(req),
    {
        match req {
            PortforwardRequest::NewLocalClientConnected { frontend_stream, src_port } => {
                match self.lookup(src_port) {
                    Some(dst) => PortforwardAction::Relay { frontend_stream, dst },
                    None => PortforwardAction::CloseFrontend { frontend_stream },
                }
            },
            PortforwardRequest::UpdateRoutingRule { src_port, dst_ip, dst_port } => {
                let dst = Endpoint { ip: dst_ip, port: dst_port };
                let mut close: Vec<u64> = Vec::new();
                let replaced = match self.routing_table.insert(src_port, dst) {
                    Some(old_dst) => old_dst != dst,
                    None => false,
                };
                if replaced {
                    match self.backend_streams.remove(&src_port) {
                        Some(streams) => {
                            close = streams;
                        },
                        None => {},
                    }
                }
                let listen = self.listeners.insert(src_port);
                proof {
                    let before = old(self)@;
                    let dst_view = Endpoint { ip: dst_ip, port: dst_port };
                    assert(replaced == before.replaces(src_port, dst_view));
                    assert(self@.backends =~= before.with_rule(src_port, dst_view).backends);
                }
                PortforwardAction::RuleUpdated { close, listen }
            },
        }
    }

    /// Takes the outcome of dialling the destination of `src_port` for the
    /// accepted connection `frontend_stream`. A stream that was opened is
    /// recorded, so that a later change of the rule shuts it down, and the two
    /// are to be spliced; after a failed dial the accepted connection is to
    /// be closed and nothing is recorded.
    pub fn backend_dialed(
        &mut self,
        src_port: u16,
        frontend_stream: u64,
        backend_stream: Option<u64>,
    ) -> (outcome: DialOutcome)
        ensures
            final(self)@ == old(self)@.after_dial(src_port, backend_stream),
            outcome == dial_outcome(frontend_stream, backend_stream),
    {
        match backend_stream {
            Some(stream) => {
                let mut streams: Vec<u64> = match self.backend_streams.remove(&src_port) {
                    Some(streams) => streams,
                    None => Vec::new(),
                };
                streams.push(stream);
                self.backend_streams.insert(src_port, streams);
                proof {
                    assert(self@.backends =~= old(self)@.with_backend(src_port, stream).backends);
                }
                DialOutcome::Splice { frontend_stream, backend_stream: stream }
            },
            None => DialOutcome::CloseFrontend { frontend_stream },
        }
    }
}

/// What follows the attempt to dial a back end.
#[derive(Debug, Clone, Copy, PartialEq, Eq, Structural)]
pub enum DialOutcome {
    /// Copy bytes between the two streams, in both directions.
    Splice { frontend_stream: u64, backend_stream: u64 },
    /// The dial failed: close the accepted connection.
    CloseFrontend { frontend_stream: u64 },
}

pub open spec fn dial_outcome(frontend_stream: u64, backend_stream: Option<u64>) -> DialOutcome {
    match backend_stream {
        Some(stream) => DialOutcome::Splice { frontend_stream, backend_stream: stream },
        None => DialOutcome::CloseFrontend { frontend_stream },
    }
}

impl ForwardTable {
    /// The table after the destination of `port` was dialled.
    pub open spec fn after_dial(self, port: u16, backend_stream: Option<u64>) -> ForwardTable {
        match backend_stream {
            Some(stream) => self.with_backend(port, stream),
            None => self,
        }
    }
}

/// The number of bytes that a relay reads at most at a time.
pub const DEFAULT_BUF_SIZE: usize = 1024;

/// What one direction of a relay has just done.
#[derive(Debug, Clone, Copy, PartialEq, Eq, Structural)]
pub enum RelayEvent {
    /// A read returned this many bytes, or failed.
    ReadDone { read: Option<usize> },
    /// The bytes of the last read were written, or the write failed.
    WriteDone { ok: bool },
}

/// What one direction of a relay does next.
#[derive(Debug, Clone, Copy, PartialEq, Eq, Structural)]
pub enum RelayStep {
    /// Read up to `DEFAULT_BUF_SIZE` bytes from the source.
    Read,
    /// Write the first `len` bytes of the buffer to the sink, all of them.
    Write { len: usize },
    /// This direction ends.
    Stop,
}

/// A direction ends at the end of its source, on a failed read, which counts
/// as the end, and on a failed write. Otherwise what was read is written, and
/// after a write the next read follows.
pub open spec fn relay_step(event: RelayEvent) -> RelayStep {
    match event {
        RelayEvent::ReadDone { read: Some(len) } => if len == 0 {
            RelayStep::Stop
        } else {
            RelayStep::Write { len }
        },
        RelayEvent::ReadDone { read: None } => RelayStep::Stop,
        RelayEvent::WriteDone { ok } => if ok {
            RelayStep::Read
        } else {
            RelayStep::Stop
        },
    }
}

/// Decides how one direction of a relay goes on after `event`.
pub fn relay_next(event: RelayEvent) -> (step: RelayStep)
    ensures
        step == relay_step(event),
{
    match event {
        RelayEvent::ReadDone { read: Some(len) } => {
            if len == 0 {
                RelayStep::Stop
            } else {
                RelayStep::Write { len }
            }
        },
        RelayEvent::ReadDone { read: None } => RelayStep::Stop,
        RelayEvent::WriteDone { ok } => {
            if ok {
                RelayStep::Read
            } else {
                RelayStep::Stop
            }
        },
    }
}

/// One round of a direction: what its read gave, the bytes or a failure,
/// and whether the write that may follow succeeds.
pub struct RelayRound {
    pub read: Option<Seq<u8>>,
    pub write_ok: bool,
}

/// The bytes that a direction has passed on when it ends, if it follows
/// `relay_step` through `rounds`; a write that fails passes nothing on.
pub open spec fn relayed(rounds: Seq<RelayRound>) -> Seq<u8>
    decreases rounds.len(),
{
    if rounds.len() == 0 {
        Seq::empty()
    } else {
        let read = match rounds[0].read {
            Some(chunk) => Some(chunk.len() as usize),
            None => None,
        };
        match relay_step(RelayEvent::ReadDone { read }) {
            RelayStep::Write { len } => match relay_step(
                RelayEvent::WriteDone { ok: rounds[0].write_ok },
            ) {
                RelayStep::Read => rounds[0].read->0.take(len as int) + relayed(rounds.skip(1)),
                _ => Seq::empty(),
            },
            _ => Seq::empty(),
        }
    }
}

/// The rounds in which `chunks` are read one after another and written,
/// and then the source ends, with `end` for its last read: no bytes, or a
/// failure.
pub open spec fn rounds_of(chunks: Seq<Seq<u8>>, end: Option<Seq<u8>>) -> Seq<RelayRound> {
    Seq::new(chunks.len(), |i: int| RelayRound { read: Some(chunks[i]), write_ok: true }).push(
        RelayRound { read: end, write_ok: true },
    )
}

/// A relay is transparent: however the bytes of a source are cut into
/// reads, a direction passes on exactly those bytes, in their order, up to
/// the end of the source, and nothing that comes after it.
pub proof fn lemma_relay_is_transparent(
    chunks: Seq<Seq<u8>>,
    end: Option<Seq<u8>>,
    later: Seq<RelayRound>,
)
    requires
        forall|i: int| 0 <= i < chunks.len() ==> 0 < (#[trigger] chunks[i]).len() <= DEFAULT_BUF_SIZE,
        end matches Some(bytes) ==> bytes.len() == 0,
    ensures
        relayed(rounds_of(chunks, end) + later) == chunks.flatten(),
    decreases chunks.len(),
{
    let rounds = rounds_of(chunks, end) + later;
    if chunks.len() == 0 {
        assert(rounds[0].read == end);
    } else {
        let rest = chunks.drop_first();
        assert(rounds[0].read == Some(chunks[0]));
        assert(rounds[0].write_ok);
        assert(rounds.skip(1) =~= rounds_of(rest, end) + later);
        assert forall|i: int| 0 <= i < rest.len() implies 0 < (#[trigger] rest[i]).len()
            <= DEFAULT_BUF_SIZE by {
            assert(rest[i] == chunks[i + 1]);
        }
        lemma_relay_is_transparent(rest, end, later);
        assert(chunks[0].take(chunks[0].len() as int) == chunks[0]);
        assert(chunks.first() == chunks[0]);
    }
}

/// The empty table is consistent, and every request and every dial for a
/// port that has a rule keeps a table consistent.
pub proof fn lemma_consistency_is_kept(
    table: ForwardTable,
    req: PortforwardRequest,
    port: u16,
    backend_stream: Option<u64>,
)
    requires
        table.consistent(),
    ensures
        ForwardTable::empty().consistent(),
        table.after(req).consistent(),
        table.rules.contains_key(port) ==> table.after_dial(port, backend_stream).consistent(),
{
}

/// No request and no dial ends an accept loop or removes a rule.
pub proof fn lemma_listeners_and_rules_only_grow(
    table: ForwardTable,
    req: PortforwardRequest,
    port: u16,
    backend_stream: Option<u64>,
)
    ensures
        table.listening.subset_of(table.after(req).listening),
        table.rules.dom().subset_of(table.after(req).rules.dom()),
        table.after_dial(port, backend_stream).listening == table.listening,
        table.after_dial(port, backend_stream).rules == table.rules,
{
}

/// An accept loop is started exactly for a port that has none, and a port
/// that got a rule has one.
pub proof fn lemma_listener_started_once(table: ForwardTable, port: u16, dst: Endpoint)
    ensures
        ({
            let req = PortforwardRequest::UpdateRoutingRule {
                src_port: port,
                dst_ip: dst.ip,
                dst_port: dst.port,
            };
            &&& table.action_on(req) matches ActionView::RuleUpdated { close, listen }
            &&& listen == !table.listening.contains(port)
            &&& table.after(req).listening.contains(port)
            &&& table.after(req).action_on(req) == (ActionView::RuleUpdated {
                close: Seq::empty(),
                listen: false,
            })
        }),
{
}

/// When the rule of a port is replaced by one with another destination,
/// every stream that was opened under the old rule is handed out to be shut
/// down, none of them stays recorded, and the next connection that the port
/// accepts is relayed to the new destination.
pub proof fn lemma_replaced_rule_closes_streams(
    table: ForwardTable,
    port: u16,
    first: Endpoint,
    second: Endpoint,
    frontend_stream: u64,
    backend_stream: u64,
    next_frontend_stream: u64,
)
    requires
        first != second,
    ensures
        ({
            let install = PortforwardRequest::UpdateRoutingRule {
                src_port: port,
                dst_ip: first.ip,
                dst_port: first.port,
            };
            let replace = PortforwardRequest::UpdateRoutingRule {
                src_port: port,
                dst_ip: second.ip,
                dst_port: second.port,
            };
            let accepted = PortforwardRequest::NewLocalClientConnected {
                frontend_stream,
                src_port: port,
            };
            let accepted_next = PortforwardRequest::NewLocalClientConnected {
                frontend_stream: next_frontend_stream,
                src_port: port,
            };
            let installed = table.after(install);
            let relayed = installed.after(accepted).after_dial(port, Some(backend_stream));
            let replaced = relayed.after(replace);
            &&& installed.action_on(accepted) == (ActionView::Relay { frontend_stream, dst: first })
            &&& relayed.action_on(replace) matches ActionView::RuleUpdated { close, listen }
            &&& close == installed.streams(port).push(backend_stream)
            &&& close.contains(backend_stream)
            &&& !listen
            &&& replaced.streams(port) == Seq::<u64>::empty()
            &&& replaced.action_on(accepted_next) == (ActionView::Relay {
                frontend_stream: next_frontend_stream,
                dst: second,
            })
        }),
{
    let install = PortforwardRequest::UpdateRoutingRule {
        src_port: port,
        dst_ip: first.ip,
        dst_port: first.port,
    };
    let installed = table.after(install);
    let close = installed.streams(port).push(backend_stream);
    assert(close[close.len() - 1] == backend_stream);
}

/// A rule that is advertised again with the destination that it has closes
/// nothing and changes nothing but, at most, the set of listeners.
pub proof fn lemma_same_rule_keeps_streams(table: ForwardTable, port: u16, dst: Endpoint)
    requires
        table.rules.contains_key(port),
        table.rules[port] == dst,
    ensures
        ({
            let req = PortforwardRequest::UpdateRoutingRule {
                src_port: port,
                dst_ip: dst.ip,
                dst_port: dst.port,
            };
            &&& table.action_on(req) matches ActionView::RuleUpdated { close, listen }
            &&& close == Seq::<u64>::empty()
            &&& table.after(req).rules == table.rules
            &&& table.after(req).backends == table.backends
        }),
{
    assert(table.rules.insert(port, dst) =~= table.rules);
}

} // verus!

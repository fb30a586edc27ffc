//! The session dispatcher of the server: what each request does to the
//! name service and what the session has to do for it. The dispatcher
//! touches no socket, clipboard or process; it tells the caller what to do.

use crate::port_forward::{Ipv4, PortforwardRequest};
use crate::protocol::{
    handshake_of, is_answered, server_handshake, CBRequest, CBRequestView, CBResponse,
    CBResponseView, ExecRequest, ExecRequestView, ExecResponse, ExecResponseView, Handshake,
    NSRequest, NSRequestView, NSResponse, NSResponseView, NTFRequest, NTFRequestView, Request,
    RequestView, Response, ResponseView,
};
use crate::registry::{is_snapshot, record, IpAddrPair, IpAddrPairView, MachineMap};
use crate::text::{opt_text, replace_char, replaced, texts};
use crate::types::{
    copy_opt, fresh_specs, lemma_known_specs_are_ignored, lemma_merge_is_idempotent,
    MachineInfo, MachineInfoView, PortforwardList, PortforwardSpec,
};
use vstd::hash_map::StringHashMap;
use vstd::prelude::*;
use vstd::string::*;

verus! {

/// The address on which the server listens.
pub const SERVER_ADDR: &'static str = "0.0.0.0:12345";

/// The title of a notification that came without one.
pub const DEFAULT_TITLE: &'static str = "Notification";

/// What the session has to do for a request.
#[derive(Debug, Clone, PartialEq, Eq)]
pub enum Action {
    /// Write this response.
    Reply(Response),
    /// Install a routing rule towards the guest at `guest_ipv4` for each of
    /// `added`, in order. Nothing is written.
    UpdateRoutes { guest_ipv4: String, added: Vec<PortforwardSpec> },
    /// Put this text on the clipboard; a failure is logged and passed
    /// over. Nothing is written.
    SetClipboard(String),
    /// Read the clipboard and write what `clipboard_reply` makes of it.
    GetClipboard,
    /// Run this command. Nothing is written.
    Run(Vec<String>),
    /// Open this path or URL. Nothing is written.
    Open(String),
    /// Read this environment variable and write what `env_reply` makes of it.
    GetEnvVar(String),
    /// Show a notification. Nothing is written.
    Notify { title: String, body: String },
}

/// An `Action` over mathematical values.
pub enum ActionView {
    Reply(ResponseView),
    UpdateRoutes { guest_ipv4: Seq<char>, added: Seq<PortforwardSpec> },
    SetClipboard(Seq<char>),
    GetClipboard,
    Run(Seq<Seq<char>>),
    Open(Seq<char>),
    GetEnvVar(Seq<char>),
    Notify { title: Seq<char>, body: Seq<char> },
}

impl View for Action {
    type V = ActionView;

    open spec fn view(&self) -> ActionView {
        match *self {
            Action::Reply(response) => ActionView::Reply(response@),
            Action::UpdateRoutes { guest_ipv4, added } => ActionView::UpdateRoutes {
                guest_ipv4: guest_ipv4@,
                added: added@,
            },
            Action::SetClipboard(content) => ActionView::SetClipboard(content@),
            Action::GetClipboard => ActionView::GetClipboard,
            Action::Run(args) => ActionView::Run(texts(args@)),
            Action::Open(path) => ActionView::Open(path@),
            Action::GetEnvVar(key) => ActionView::GetEnvVar(key@),
            Action::Notify { title, body } => ActionView::Notify { title: title@, body: body@ },
        }
    }
}

impl ActionView {
    /// Whether the session writes a response for this action.
    pub open spec fn writes(self) -> bool {
        self is Reply || self is GetClipboard || self is GetEnvVar
    }
}

impl Action {
    /// Whether the session writes a response for this action.
    pub fn writes_reply(&self) -> (writes: bool)
        ensures
            writes == self@.writes(),
    {
        match self {
            Action::Reply(_) => true,
            Action::GetClipboard => true,
            Action::GetEnvVar(_) => true,
            _ => false,
        }
    }
}

/// The name service as mathematical values.
#[verifier::ext_equal]
pub struct NameServiceView {
    /// The registry: the addresses of each hostname.
    pub machines: Map<Seq<char>, IpAddrPairView>,
    /// The forwards that each hostname has advertised so far, in the order
    /// in which they were first seen.
    pub forwards: Map<Seq<char>, Seq<PortforwardSpec>>,
}

impl NameServiceView {
    pub open spec fn empty() -> NameServiceView {
        NameServiceView { machines: Map::empty(), forwards: Map::empty() }
    }

    /// The forwards that are remembered for `hostname`; none for a hostname
    /// that has not been heard of.
    pub open spec fn remembered(self, hostname: Seq<char>) -> Seq<PortforwardSpec> {
        if self.forwards.contains_key(hostname) {
            self.forwards[hostname]
        } else {
            Seq::empty()
        }
    }

    /// The name service after a heartbeat: the machine is registered with
    /// the addresses it gave, and the forwards that are new are remembered
    /// behind those that were.
    pub open spec fn after_heartbeat(
        self,
        info: MachineInfoView,
        given: Seq<PortforwardSpec>,
    ) -> NameServiceView {
        NameServiceView {
            machines: self.machines.insert(
                info.hostname,
                IpAddrPairView { ipv4_addr: info.ipv4_addr, ipv6_addr: info.ipv6_addr },
            ),
            forwards: self.forwards.insert(
                info.hostname,
                self.remembered(info.hostname) + fresh_specs(
                    self.remembered(info.hostname),
                    given,
                ),
            ),
        }
    }

    /// The name service after `request`: only a heartbeat changes it.
    pub open spec fn after(self, request: RequestView) -> NameServiceView {
        match request {
            RequestView::NameService(NSRequestView::Heartbeat(info, given)) => self.after_heartbeat(
                info,
                given,
            ),
            _ => self,
        }
    }

    /// The answer to a query for `hostname`.
    pub open spec fn lookup(self, hostname: Seq<char>) -> Option<MachineInfoView> {
        if self.machines.contains_key(hostname) {
            Some(record(hostname, self.machines[hostname]))
        } else {
            None
        }
    }

    /// Whether `action` is what `request` asks for in this state. It is one
    /// action for each request, but for the order of a machine list.
    pub open spec fn asks_for(self, request: RequestView, action: ActionView) -> bool {
        match request {
            RequestView::Negotiation(_) => action == ActionView::Reply(
                ResponseView::NegotiationResult(true),
            ),
            RequestView::NameService(NSRequestView::Heartbeat(info, given)) => action
                == (ActionView::UpdateRoutes {
                guest_ipv4: info.ipv4_addr,
                added: fresh_specs(self.remembered(info.hostname), given),
            }),
            RequestView::NameService(NSRequestView::QueryIp(hostname)) => action
                == ActionView::Reply(
                ResponseView::NameService(NSResponseView::Ip(self.lookup(hostname))),
            ),
            RequestView::NameService(NSRequestView::GetMachineList) => {
                &&& action matches ActionView::Reply(
                    ResponseView::NameService(NSResponseView::MachineList(list)),
                )
                &&& is_snapshot(list, self.machines)
            },
            RequestView::ClipBoard(CBRequestView::SetClipboard(content)) => action
                == ActionView::SetClipboard(content),
            RequestView::ClipBoard(CBRequestView::GetClipboard) => action
                == ActionView::GetClipboard,
            RequestView::Execute(ExecRequestView::Execute(args)) => action == ActionView::Run(args),
            RequestView::Execute(ExecRequestView::Open(path)) => action == ActionView::Open(path),
            RequestView::Execute(ExecRequestView::GetEnvVar(key)) => action
                == ActionView::GetEnvVar(key),
            RequestView::Notification(NTFRequestView::Notification(title, body)) => action
                == (ActionView::Notify {
                title: match title {
                    Some(title) => title,
                    None => DEFAULT_TITLE@,
                },
                body,
            }),
        }
    }
}

/// The state that the sessions of a server share: the machine registry and
/// the forwards that each guest has advertised.
pub struct NameService {
    machines: MachineMap,
    forwards: StringHashMap<PortforwardList>,
}

impl View for NameService {
    type V = NameServiceView;

    closed spec fn view(&self) -> NameServiceView {
        NameServiceView {
            machines: self.machines@,
            forwards: self.forwards@.map_values(|list: PortforwardList| list@),
        }
    }
}

impl NameService {
    /// What every name service that was built by `new` and `dispatch` meets.
    pub closed spec fn wf(&self) -> bool {
        self.machines.wf()
    }

    /// A name service that knows no machine.
    pub fn new() -> (service: Self)
        ensures
            service.wf(),
            service@ == NameServiceView::empty(),
    {
        let service = NameService { machines: MachineMap::new(), forwards: StringHashMap::new() };
        assert(service@.forwards =~= Map::empty());
        service
    }

    fn remembered_list(&self, hostname: &str) -> (list: PortforwardList)
        ensures
            list@ == self@.remembered(hostname@),
    {
        let mut list = PortforwardList::new(Vec::new());
        match self.forwards.get(hostname) {
            Some(known) => {
                let mut i: usize = 0;
                while i < known.forwards.len()
                    invariant
                        i <= known.forwards.len(),
                        list@ == known@.take(i as int),
                    decreases known.forwards.len() - i,
                {
                    list.append_elem(known.forwards[i]);
                    proof {
                        assert(known@.take(i + 1) == known@.take(i as int).push(known@[i as int]));
                    }
                    i += 1;
                }
                proof {
                    assert(known@.take(i as int) == known@);
                }
            },
            None => {},
        }
        list
    }

    /// Handles one request of a session after its handshake and says what
    /// the session has to do.
    pub fn dispatch(&mut self, request: Request) -> (action: Action)
        requires
            old(self).wf(),
        ensures
            final(self).wf(),
            final(self)@ == old(self)@.after(request@),
            old(self)@.asks_for(request@, action@),
    {
        match request {
            Request::Negotiation(_) => Action::Reply(Response::NegotiationResult(true)),
            Request::NameService(NSRequest::Heartbeat(info, given)) => {
                let mut list = self.remembered_list(info.hostname.as_str());
                let added = list.merge_elem(&given);
                let guest_ipv4 = info.ipv4_addr.clone();
                let hostname = info.hostname.clone();
                self.forwards.insert(hostname, list);
                self.machines.insert(info.hostname, IpAddrPair::new(info.ipv4_addr, info.ipv6_addr));
                proof {
                    assert(self@.forwards =~= old(self)@.after(request@).forwards);
                }
                Action::UpdateRoutes { guest_ipv4, added }
            },
            Request::NameService(NSRequest::QueryIp(hostname)) => {
                let found = match self.machines.get(hostname.as_str()) {
                    Some(pair) => Some(
                        MachineInfo {
                            hostname: hostname,
                            ipv4_addr: pair.ipv4_addr.clone(),
                            ipv6_addr: copy_opt(&pair.ipv6_addr),
                        },
                    ),
                    None => None,
                };
                Action::Reply(Response::NameService(NSResponse::Ip(found)))
            },
            Request::NameService(NSRequest::GetMachineList) => {
                let list = self.machines.iter();
                Action::Reply(Response::NameService(NSResponse::MachineList(list)))
            },
            Request::ClipBoard(CBRequest::SetClipboard(content)) => Action::SetClipboard(content),
            Request::ClipBoard(CBRequest::GetClipboard) => Action::GetClipboard,
            Request::Execute(ExecRequest::Execute(args)) => Action::Run(args),
            Request::Execute(ExecRequest::Open(path)) => Action::Open(path),
            Request::Execute(ExecRequest::GetEnvVar(key)) => Action::GetEnvVar(key),
            Request::Notification(NTFRequest::Notification(title, body)) => {
                let title = match title {
                    Some(title) => title,
                    None => DEFAULT_TITLE.to_owned(),
                };
                Action::Notify { title, body }
            },
        }
    }
}

/// Where a session stands.
#[derive(Debug, Clone, Copy, PartialEq, Eq, Structural)]
pub enum SessionPhase {
    /// Nothing was received yet: the first request has to be a negotiation.
    Handshake,
    /// The handshake succeeded: requests are dispatched.
    Open,
    /// The session is over: nothing is looked at and nothing is written.
    Closed,
}

/// What a session does with a request that it received.
#[derive(Debug, Clone, PartialEq, Eq)]
pub enum SessionStep {
    /// The request was the first of the session: write the reply of the
    /// handshake, if it has one, and close the connection unless the
    /// handshake was accepted.
    Greeted(Handshake),
    /// The request was dispatched: carry out the action.
    Act(Action),
    /// The session is over: close the connection.
    Ignored,
}

/// A `SessionStep` over mathematical values.
pub enum SessionStepView {
    Greeted(Handshake),
    Act(ActionView),
    Ignored,
}

impl View for SessionStep {
    type V = SessionStepView;

    open spec fn view(&self) -> SessionStepView {
        match *self {
            SessionStep::Greeted(outcome) => SessionStepView::Greeted(outcome),
            SessionStep::Act(action) => SessionStepView::Act(action@),
            SessionStep::Ignored => SessionStepView::Ignored,
        }
    }
}

/// The phase after a request was received in `phase` by a server with the
/// digest `local_digest`.
pub open spec fn phase_after(
    phase: SessionPhase,
    request: RequestView,
    local_digest: Seq<u8>,
) -> SessionPhase {
    match phase {
        SessionPhase::Handshake => if handshake_of(request, local_digest) == Handshake::Accepted {
            SessionPhase::Open
        } else {
            SessionPhase::Closed
        },
        SessionPhase::Open => SessionPhase::Open,
        SessionPhase::Closed => SessionPhase::Closed,
    }
}

/// Whether `step` is what a session in `phase` does with `request`, for the
/// name service `service`.
pub open spec fn session_step(
    phase: SessionPhase,
    service: NameServiceView,
    request: RequestView,
    local_digest: Seq<u8>,
    step: SessionStepView,
) -> bool {
    match phase {
        SessionPhase::Handshake => step == SessionStepView::Greeted(
            handshake_of(request, local_digest),
        ),
        SessionPhase::Open => step matches SessionStepView::Act(action) && service.asks_for(
            request,
            action,
        ),
        SessionPhase::Closed => step == SessionStepView::Ignored,
    }
}

/// The server's side of one connection, from its handshake to its end.
pub struct Session {
    phase: SessionPhase,
}

impl Session {
    pub closed spec fn phase(&self) -> SessionPhase {
        self.phase
    }

    /// A session that waits for its handshake.
    pub fn new() -> (session: Self)
        ensures
            session.phase() == SessionPhase::Handshake,
    {
        Session { phase: SessionPhase::Handshake }
    }

    /// Where the session stands.
    pub fn current_phase(&self) -> (phase: SessionPhase)
        ensures
            phase == self.phase(),
    {
        self.phase
    }

    /// Ends the session: the peer has closed, or a frame could not be read
    /// or understood.
    pub fn close(&mut self)
        ensures
            final(self).phase() == SessionPhase::Closed,
    {
        self.phase = SessionPhase::Closed;
    }

    /// Takes one request in the order in which it was received. The first
    /// request of a session is its handshake and goes by `local_digest`, the
    /// server's own digest; the name service is touched only by the requests
    /// that follow an accepted handshake.
    pub fn receive(
        &mut self,
        service: &mut NameService,
        local_digest: &[u8],
        request: Request,
    ) -> (step: SessionStep)
        requires
            old(service).wf(),
        ensures
            final(service).wf(),
            final(self).phase() == phase_after(old(self).phase(), request@, local_digest@),
            final(service)@ == if old(self).phase() == SessionPhase::Open {
                old(service)@.after(request@)
            } else {
                old(service)@
            },
            session_step(old(self).phase(), old(service)@, request@, local_digest@, step@),
    {
        match self.phase {
            SessionPhase::Handshake => {
                let outcome = server_handshake(&request, local_digest);
                if outcome.proceeds() {
                    self.phase = SessionPhase::Open;
                } else {
                    self.phase = SessionPhase::Closed;
                }
                SessionStep::Greeted(outcome)
            },
            SessionPhase::Open => SessionStep::Act(service.dispatch(request)),
            SessionPhase::Closed => SessionStep::Ignored,
        }
    }
}

/// A session whose first request does not carry the server's digest is
/// over: whatever follows is neither dispatched nor answered, and the name
/// service stays as it was. A session whose first request carries the
/// digest dispatches what follows.
pub proof fn lemma_handshake_guards_the_session(
    service: NameServiceView,
    first: RequestView,
    next: RequestView,
    local_digest: Seq<u8>,
    step: SessionStepView,
)
    requires
        session_step(
            phase_after(SessionPhase::Handshake, first, local_digest),
            service,
            next,
            local_digest,
            step,
        ),
    ensures
        first == RequestView::Negotiation(local_digest) ==> step is Act,
        first != RequestView::Negotiation(local_digest) ==> step is Ignored,
        phase_after(
            phase_after(SessionPhase::Handshake, first, local_digest),
            next,
            local_digest,
        ) == phase_after(SessionPhase::Handshake, first, local_digest),
{
}

/// The response to `GetClipboard`: what was read, or the empty text where
/// the clipboard could not be read.
pub fn clipboard_reply(content: Option<String>) -> (response: Response)
    ensures
        response@ == ResponseView::ClipBoard(
            CBResponseView::GetClipboard(
                match content {
                    Some(content) => content@,
                    None => Seq::empty(),
                },
            ),
        ),
{
    let content = match content {
        Some(content) => content,
        None => String::new(),
    };
    Response::ClipBoard(CBResponse::GetClipboard(content))
}

/// The response to `GetEnvVar`: the value, or none where the variable is
/// not set.
pub fn env_reply(value: Option<String>) -> (response: Response)
    ensures
        response@ == ResponseView::Execute(ExecResponseView::GetEnvVar(opt_text(value))),
{
    Response::Execute(ExecResponse::GetEnvVar(value))
}

/// The rule that `forward` asks for, towards the guest at `dst_ip`.
pub open spec fn routing_request(dst_ip: Ipv4, forward: PortforwardSpec) -> PortforwardRequest {
    PortforwardRequest::UpdateRoutingRule {
        src_port: forward.host_port,
        dst_ip,
        dst_port: forward.guest_port,
    }
}

/// The requests to the port-forward controller that install `added` for the
/// guest at `dst_ip`: one for each forward, in order.
pub fn routing_requests(dst_ip: Ipv4, added: &Vec<PortforwardSpec>) -> (requests: Vec<
    PortforwardRequest,
>)
    ensures
        requests@ == Seq::new(added@.len(), |i: int| routing_request(dst_ip, added@[i])),
{
    let mut requests: Vec<PortforwardRequest> = Vec::new();
    let mut i: usize = 0;
    while i < added.len()
        invariant
            i <= added.len(),
            requests@ == Seq::new(i as nat, |k: int| routing_request(dst_ip, added@[k])),
        decreases added.len() - i,
    {
        let forward = added[i];
        requests.push(
            PortforwardRequest::UpdateRoutingRule {
                src_port: forward.host_port,
                dst_ip,
                dst_port: forward.guest_port,
            },
        );
        i += 1;
    }
    requests
}

/// The words behind `cmd` that start `args` through the host's shell.
pub open spec fn start_words(args: Seq<Seq<char>>) -> Seq<Seq<char>> {
    seq!["/C"@, "start"@] + args
}

/// The path as the host's shell takes it: with `\` for every `/`.
pub open spec fn host_path(path: Seq<char>) -> Seq<char> {
    replaced(path, '/', seq!['\\'])
}

/// The arguments for the host's `cmd` that run the command `args`.
pub fn start_command(args: &Vec<String>) -> (words: Vec<String>)
    ensures
        texts(words@) == start_words(texts(args@)),
{
    let mut words: Vec<String> = Vec::new();
    words.push("/C".to_owned());
    words.push("start".to_owned());
    assert(texts(words@) == seq!["/C"@, "start"@]);
    let mut i: usize = 0;
    while i < args.len()
        invariant
            i <= args.len(),
            texts(words@) == seq!["/C"@, "start"@] + texts(args@).take(i as int),
        decreases args.len() - i,
    {
        let ghost before = texts(words@);
        words.push(args[i].clone());
        proof {
            assert(texts(words@) == before.push(args@[i as int]@));
            assert(texts(args@).take(i + 1) == texts(args@).take(i as int).push(
                args@[i as int]@,
            ));
        }
        i += 1;
    }
    proof {
        assert(texts(args@).take(i as int) == texts(args@));
    }
    words
}

/// The arguments for the host's `cmd` that open `path`.
pub fn open_command(path: &str) -> (words: Vec<String>)
    ensures
        texts(words@) == start_words(seq![host_path(path@)]),
{
    proof {
        reveal_strlit("\\");
        assert("\\"@ =~= seq!['\\']);
    }
    let mut words: Vec<String> = Vec::new();
    words.push("/C".to_owned());
    words.push("start".to_owned());
    words.push(replace_char(path, '/', "\\"));
    assert(texts(words@) == seq!["/C"@, "start"@] + seq![host_path(path@)]);
    words
}

/// Forwards are only ever added: what a guest advertised stays remembered
/// when it advertises less, and a heartbeat that advertises nothing new
/// asks for no routing rule.
pub proof fn lemma_forwards_are_additive(
    service: NameServiceView,
    info: MachineInfoView,
    given: Seq<PortforwardSpec>,
    again: Seq<PortforwardSpec>,
)
    ensures
        service.remembered(info.hostname).is_prefix_of(
            service.after_heartbeat(info, given).remembered(info.hostname),
        ),
        fresh_specs(service.after_heartbeat(info, given).remembered(info.hostname), given)
            == Seq::<PortforwardSpec>::empty(),
        (forall|i: int|
            0 <= i < again.len() ==> service.remembered(info.hostname).contains(
                #[trigger] again[i],
            )) ==> fresh_specs(service.remembered(info.hostname), again) == Seq::<
            PortforwardSpec,
        >::empty(),
{
    let known = service.remembered(info.hostname);
    let merged = known + fresh_specs(known, given);
    assert(merged.subrange(0, known.len() as int) =~= known);
    lemma_merge_is_idempotent(known, given);
    if forall|i: int| 0 <= i < again.len() ==> known.contains(#[trigger] again[i]) {
        lemma_known_specs_are_ignored(known, again);
    }
}

/// The session writes a response exactly for the requests that are
/// answered, so that each side of a session reads what the other writes.
pub proof fn lemma_reply_exactly_when_answered(
    service: NameServiceView,
    request: RequestView,
    action: ActionView,
)
    requires
        service.asks_for(request, action),
    ensures
        action.writes() == is_answered(request),
{
}

/// No request makes the name service forget a machine or a forward.
pub proof fn lemma_nothing_is_forgotten(
    service: NameServiceView,
    request: RequestView,
    hostname: Seq<char>,
)
    ensures
        service.machines.dom().subset_of(service.after(request).machines.dom()),
        service.remembered(hostname).is_prefix_of(service.after(request).remembered(hostname)),
{
    let known = service.remembered(hostname);
    assert(known.subrange(0, known.len() as int) =~= known);
    match request {
        RequestView::NameService(NSRequestView::Heartbeat(info, given)) => {
            if info.hostname == hostname {
                let merged = known + fresh_specs(known, given);
                assert(merged.subrange(0, known.len() as int) =~= known);
            }
        },
        _ => {},
    }
}

/// A query after a heartbeat finds what the heartbeat registered, and a
/// hostname that no heartbeat named is not found.
pub proof fn lemma_query_finds_heartbeat(
    service: NameServiceView,
    info: MachineInfoView,
    given: Seq<PortforwardSpec>,
    other: Seq<char>,
)
    ensures
        service.after_heartbeat(info, given).lookup(info.hostname) == Some(info),
        other != info.hostname ==> service.after_heartbeat(info, given).lookup(other)
            == service.lookup(other),
        NameServiceView::empty().lookup(other) == None::<MachineInfoView>,
{
}

} // verus!

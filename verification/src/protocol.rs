//! The requests and responses of a session, the digest of their schema, and
//! the handshake that compares digests.

use crate::text::{opt_text, texts};
use crate::types::{infos, MachineInfo, MachineInfoView, PortforwardList, PortforwardSpec};
use vstd::prelude::*;
use vstd::string::*;
use vstd::utf8::encode_utf8;

verus! {

/// What a guest or a query tool asks of the name service.
#[derive(Debug, Clone, PartialEq, Eq)]
pub enum NSRequest {
    /// A guest announces itself and the forwards it wants.
    Heartbeat(MachineInfo, PortforwardList),
    /// The addresses of the machine with this name.
    QueryIp(String),
    /// Every machine that is registered.
    GetMachineList,
}

#[derive(Debug, Clone, PartialEq, Eq)]
pub enum NSResponse {
    /// The answer to `QueryIp`; `None` where the name is not registered.
    Ip(Option<MachineInfo>),
    /// The answer to `GetMachineList`.
    MachineList(Vec<MachineInfo>),
}

#[derive(Debug, Clone, PartialEq, Eq)]
pub enum CBRequest {
    SetClipboard(String),
    GetClipboard,
}

#[derive(Debug, Clone, PartialEq, Eq)]
pub enum CBResponse {
    GetClipboard(String),
}

#[derive(Debug, Clone, PartialEq, Eq)]
pub enum ExecRequest {
    /// Run a command on the host, given by its words.
    Execute(Vec<String>),
    /// Open a path or URL on the host.
    Open(String),
    /// The value of an environment variable of the server.
    GetEnvVar(String),
}

#[derive(Debug, Clone, PartialEq, Eq)]
pub enum ExecResponse {
    GetEnvVar(Option<String>),
}

#[derive(Debug, Clone, PartialEq, Eq)]
pub enum NTFRequest {
    /// Show a notification with an optional title and a body.
    Notification(Option<String>, String),
}

#[derive(Debug, Clone, PartialEq, Eq)]
pub enum Request {
    /// The first request of a session: the digest of the sender's schema.
    Negotiation(Vec<u8>),
    NameService(NSRequest),
    ClipBoard(CBRequest),
    Execute(ExecRequest),
    Notification(NTFRequest),
}

#[derive(Debug, Clone, PartialEq, Eq)]
pub enum Response {
    /// Whether the digests of both sides are equal.
    NegotiationResult(bool),
    NameService(NSResponse),
    ClipBoard(CBResponse),
    Execute(ExecResponse),
}

pub enum NSRequestView {
    Heartbeat(MachineInfoView, Seq<PortforwardSpec>),
    QueryIp(Seq<char>),
    GetMachineList,
}

pub enum NSResponseView {
    Ip(Option<MachineInfoView>),
    MachineList(Seq<MachineInfoView>),
}

pub enum CBRequestView {
    SetClipboard(Seq<char>),
    GetClipboard,
}

pub enum CBResponseView {
    GetClipboard(Seq<char>),
}

pub enum ExecRequestView {
    Execute(Seq<Seq<char>>),
    Open(Seq<char>),
    GetEnvVar(Seq<char>),
}

pub enum ExecResponseView {
    GetEnvVar(Option<Seq<char>>),
}

pub enum NTFRequestView {
    Notification(Option<Seq<char>>, Seq<char>),
}

pub enum RequestView {
    Negotiation(Seq<u8>),
    NameService(NSRequestView),
    ClipBoard(CBRequestView),
    Execute(ExecRequestView),
    Notification(NTFRequestView),
}

pub enum ResponseView {
    NegotiationResult(bool),
    NameService(NSResponseView),
    ClipBoard(CBResponseView),
    Execute(ExecResponseView),
}

/// The view of an optional machine record.
pub open spec fn opt_info(info: Option<MachineInfo>) -> Option<MachineInfoView> {
    match info {
        Some(info) => Some(info@),
        None => None,
    }
}

impl View for NSRequest {
    type V = NSRequestView;

    open spec fn view(&self) -> NSRequestView {
        match *self {
            NSRequest::Heartbeat(info, forwards) => NSRequestView::Heartbeat(info@, forwards@),
            NSRequest::QueryIp(hostname) => NSRequestView::QueryIp(hostname@),
            NSRequest::GetMachineList => NSRequestView::GetMachineList,
        }
    }
}

impl View for NSResponse {
    type V = NSResponseView;

    open spec fn view(&self) -> NSResponseView {
        match *self {
            NSResponse::Ip(info) => NSResponseView::Ip(opt_info(info)),
            NSResponse::MachineList(machines) => NSResponseView::MachineList(infos(machines@)),
        }
    }
}

impl View for CBRequest {
    type V = CBRequestView;

    open spec fn view(&self) -> CBRequestView {
        match *self {
            CBRequest::SetClipboard(content) => CBRequestView::SetClipboard(content@),
            CBRequest::GetClipboard => CBRequestView::GetClipboard,
        }
    }
}

impl View for CBResponse {
    type V = CBResponseView;

    open spec fn view(&self) -> CBResponseView {
        match *self {
            CBResponse::GetClipboard(content) => CBResponseView::GetClipboard(content@),
        }
    }
}

impl View for ExecRequest {
    type V = ExecRequestView;

    open spec fn view(&self) -> ExecRequestView {
        match *self {
            ExecRequest::Execute(args) => ExecRequestView::Execute(texts(args@)),
            ExecRequest::Open(path) => ExecRequestView::Open(path@),
            ExecRequest::GetEnvVar(key) => ExecRequestView::GetEnvVar(key@),
        }
    }
}

impl View for ExecResponse {
    type V = ExecResponseView;

    open spec fn view(&self) -> ExecResponseView {
        match *self {
            ExecResponse::GetEnvVar(value) => ExecResponseView::GetEnvVar(opt_text(value)),
        }
    }
}

impl View for NTFRequest {
    type V = NTFRequestView;

    open spec fn view(&self) -> NTFRequestView {
        match *self {
            NTFRequest::Notification(title, body) => NTFRequestView::Notification(
                opt_text(title),
                body@,
            ),
        }
    }
}

impl View for Request {
    type V = RequestView;

    open spec fn view(&self) -> RequestView {
        match *self {
            Request::Negotiation(digest) => RequestView::Negotiation(digest@),
            Request::NameService(req) => RequestView::NameService(req@),
            Request::ClipBoard(req) => RequestView::ClipBoard(req@),
            Request::Execute(req) => RequestView::Execute(req@),
            Request::Notification(req) => RequestView::Notification(req@),
        }
    }
}

impl View for Response {
    type V = ResponseView;

    open spec fn view(&self) -> ResponseView {
        match *self {
            Response::NegotiationResult(equal) => ResponseView::NegotiationResult(equal),
            Response::NameService(res) => ResponseView::NameService(res@),
            Response::ClipBoard(res) => ResponseView::ClipBoard(res@),
            Response::Execute(res) => ResponseView::Execute(res@),
        }
    }
}

/// The schema of the protocol as text: the arms of each union by name and
/// in order, with the types that they carry. Two peers can talk exactly if
/// they hold the same text.
pub const PROTOCOL_SRC: &'static str =
    "Request = Negotiation(bin) | NameService(NSRequest) | ClipBoard(CBRequest) | Execute(ExecRequest) | Notification(NTFRequest); Response = NegotiationResult(bool) | NameService(NSResponse) | ClipBoard(CBResponse) | Execute(ExecResponse); NSRequest = Heartbeat(MachineInfo, PortforwardList) | QueryIp(str) | GetMachineList; NSResponse = Ip(opt MachineInfo) | MachineList(seq MachineInfo); CBRequest = SetClipboard(str) | GetClipboard; CBResponse = GetClipboard(str); ExecRequest = Execute(seq str) | Open(str) | GetEnvVar(str); ExecResponse = GetEnvVar(opt str); NTFRequest = Notification(opt str, str); MachineInfo = { hostname: str, ipv4_addr: str, ipv6_addr: opt str }; PortforwardList = { forwards: seq PortforwardSpec }; PortforwardSpec = { host_port: u16, guest_port: u16 };";

/// The number of bytes of a SHA-256 digest.
pub const DIGEST_LEN: usize = 32;

/// The SHA-256 digest of `data`.
pub uninterp spec fn sha256_of(data: Seq<u8>) -> Seq<u8>;

/// The digest that both peers compute: SHA-256 of the schema text in UTF-8.
pub open spec fn protocol_digest() -> Seq<u8> {
    sha256_of(encode_utf8(PROTOCOL_SRC@))
}

/// SHA-256 by `ring`: the call is `digest::digest(&digest::SHA256, data)`,
/// and the result is what the digest gives as a slice. `ring` counts the
/// input in bits in 64 bits and panics where that overflows, so the input
/// stays below 2^61 bytes. The digest depends on the input alone and has
/// 32 bytes.
#[verifier::external_body]
fn sha256(data: &[u8]) -> (digest: Vec<u8>)
    requires
        data@.len() < 0x2000_0000_0000_0000,
    ensures
        digest@ == sha256_of(data@),
        digest@.len() == DIGEST_LEN,
{
    ring::digest::digest(&ring::digest::SHA256, data).as_ref().to_vec()
}

/// No character takes more than four bytes in UTF-8.
pub proof fn lemma_utf8_len(chars: Seq<char>)
    ensures
        encode_utf8(chars).len() <= 4 * chars.len(),
    decreases chars.len(),
{
    if chars.len() > 0 {
        lemma_utf8_len(chars.drop_first());
    }
}

/// Computes the digest of the protocol's schema. Every call, in every
/// process, gives the same 32 bytes.
pub fn calc_protocol_digest() -> (digest: Vec<u8>)
    ensures
        digest@ == protocol_digest(),
        digest@.len() == DIGEST_LEN,
{
    proof {
        reveal_strlit(
            "Request = Negotiation(bin) | NameService(NSRequest) | ClipBoard(CBRequest) | Execute(ExecRequest) | Notification(NTFRequest); Response = NegotiationResult(bool) | NameService(NSResponse) | ClipBoard(CBResponse) | Execute(ExecResponse); NSRequest = Heartbeat(MachineInfo, PortforwardList) | QueryIp(str) | GetMachineList; NSResponse = Ip(opt MachineInfo) | MachineList(seq MachineInfo); CBRequest = SetClipboard(str) | GetClipboard; CBResponse = GetClipboard(str); ExecRequest = Execute(seq str) | Open(str) | GetEnvVar(str); ExecResponse = GetEnvVar(opt str); NTFRequest = Notification(opt str, str); MachineInfo = { hostname: str, ipv4_addr: str, ipv6_addr: opt str }; PortforwardList = { forwards: seq PortforwardSpec }; PortforwardSpec = { host_port: u16, guest_port: u16 };",
        );
        lemma_utf8_len(PROTOCOL_SRC@);
    }
    sha256(PROTOCOL_SRC.as_bytes())
}

/// Whether two byte strings are equal.
pub fn same_bytes(a: &[u8], b: &[u8]) -> (equal: bool)
    ensures
        equal == (a@ == b@),
{
    if a.len() != b.len() {
        return false;
    }
    let mut i: usize = 0;
    while i < a.len()
        invariant
            i <= a.len(),
            a.len() == b.len(),
            forall|j: int| 0 <= j < i ==> a@[j] == b@[j],
        decreases a.len() - i,
    {
        if a[i] != b[i] {
            return false;
        }
        i += 1;
    }
    assert(a@ =~= b@);
    true
}

/// How the server takes the first request of a session.
#[derive(Debug, Clone, Copy, PartialEq, Eq, Structural)]
pub enum Handshake {
    /// The digests are equal: reply `NegotiationResult(true)` and go on.
    Accepted,
    /// The digests differ: reply `NegotiationResult(false)`, then close.
    Rejected,
    /// The request is no negotiation: close without a reply.
    NotNegotiation,
}

/// How a server with the digest `local_digest` takes `first`.
pub open spec fn handshake_of(first: RequestView, local_digest: Seq<u8>) -> Handshake {
    match first {
        RequestView::Negotiation(digest) => if digest == local_digest {
            Handshake::Accepted
        } else {
            Handshake::Rejected
        },
        _ => Handshake::NotNegotiation,
    }
}

impl Handshake {
    /// What the server writes back.
    pub open spec fn reply_view(self) -> Option<ResponseView> {
        match self {
            Handshake::Accepted => Some(ResponseView::NegotiationResult(true)),
            Handshake::Rejected => Some(ResponseView::NegotiationResult(false)),
            Handshake::NotNegotiation => None,
        }
    }

    /// The response to write back, if any.
    pub fn reply(&self) -> (reply: Option<Response>)
        ensures
            opt_response(reply) == self.reply_view(),
    {
        match self {
            Handshake::Accepted => Some(Response::NegotiationResult(true)),
            Handshake::Rejected => Some(Response::NegotiationResult(false)),
            Handshake::NotNegotiation => None,
        }
    }

    /// Whether the session goes on to its main loop.
    pub fn proceeds(&self) -> (goes_on: bool)
        ensures
            goes_on == (*self == Handshake::Accepted),
    {
        match self {
            Handshake::Accepted => true,
            _ => false,
        }
    }
}

/// The view of an optional response.
pub open spec fn opt_response(response: Option<Response>) -> Option<ResponseView> {
    match response {
        Some(response) => Some(response@),
        None => None,
    }
}

/// Decides the handshake on the server's side: `first` is the first request
/// of the session, `local_digest` the server's own digest.
pub fn server_handshake(first: &Request, local_digest: &[u8]) -> (outcome: Handshake)
    ensures
        outcome == handshake_of(first@, local_digest@),
{
    match first {
        Request::Negotiation(digest) => {
            if same_bytes(digest.as_slice(), local_digest) {
                Handshake::Accepted
            } else {
                Handshake::Rejected
            }
        },
        _ => Handshake::NotNegotiation,
    }
}

/// The request with which a client opens a session.
pub fn negotiation_request() -> (request: Request)
    ensures
        request@ == RequestView::Negotiation(protocol_digest()),
{
    Request::Negotiation(calc_protocol_digest())
}

/// Whether `response` lets the client go on: it does if and only if it is
/// `NegotiationResult(true)`.
pub fn negotiation_accepted(response: &Response) -> (accepted: bool)
    ensures
        accepted == (response@ == ResponseView::NegotiationResult(true)),
{
    match response {
        Response::NegotiationResult(result) => *result,
        _ => false,
    }
}

/// Whether a request is answered with a response. A negotiation, a query,
/// the machine list, the clipboard's content and an environment variable
/// are; a heartbeat and what only has an effect on the host are not.
pub open spec fn is_answered(request: RequestView) -> bool {
    match request {
        RequestView::Negotiation(_) => true,
        RequestView::NameService(NSRequestView::Heartbeat(_, _)) => false,
        RequestView::NameService(_) => true,
        RequestView::ClipBoard(CBRequestView::GetClipboard) => true,
        RequestView::ClipBoard(_) => false,
        RequestView::Execute(ExecRequestView::GetEnvVar(_)) => true,
        RequestView::Execute(_) => false,
        RequestView::Notification(_) => false,
    }
}

/// Whether the sender of `request` has to read a response.
pub fn expects_reply(request: &Request) -> (answered: bool)
    ensures
        answered == is_answered(request@),
{
    match request {
        Request::Negotiation(_) => true,
        Request::NameService(NSRequest::Heartbeat(_, _)) => false,
        Request::NameService(_) => true,
        Request::ClipBoard(CBRequest::GetClipboard) => true,
        Request::ClipBoard(_) => false,
        Request::Execute(ExecRequest::GetEnvVar(_)) => true,
        Request::Execute(_) => false,
        Request::Notification(_) => false,
    }
}

/// A client that sends the digest that the server holds is accepted, and
/// one that sends anything else is rejected.
pub proof fn lemma_handshake_compares_digests(sent: Seq<u8>, local_digest: Seq<u8>)
    ensures
        handshake_of(RequestView::Negotiation(sent), local_digest) == if sent == local_digest {
            Handshake::Accepted
        } else {
            Handshake::Rejected
        },
        handshake_of(RequestView::Negotiation(local_digest), local_digest).reply_view() == Some(
            ResponseView::NegotiationResult(true),
        ),
        sent != local_digest ==> handshake_of(
            RequestView::Negotiation(sent),
            local_digest,
        ).reply_view() == Some(ResponseView::NegotiationResult(false)),
{
}

} // verus!

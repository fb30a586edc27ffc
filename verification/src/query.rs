//! The query tool's side: which request a sub-command sends, and what is
//! printed for the response.

use crate::protocol::{
    NSRequest, NSRequestView, NSResponse, NSResponseView, Request, RequestView, Response,
    ResponseView,
};
use crate::text::{find_char, position, same_text, texts};
use crate::types::{infos, MachineInfo, MachineInfoView};
use vstd::prelude::*;
use vstd::string::*;

verus! {

/// What the query tool was asked for.
#[derive(Debug, Clone, Copy, PartialEq, Eq, Structural)]
pub enum QueryMode {
    /// The IPv4 address of a host.
    QueryIPv4,
    /// The IPv6 address of a host.
    QueryIPv6,
    /// The IPv6 address of a host if it has one, else its IPv4 address.
    QueryIpv6OrV4,
    /// Every registered machine.
    List,
}

/// Why nothing is printed.
#[derive(Debug, Clone, Copy, PartialEq, Eq, Structural)]
pub enum QueryError {
    /// The hostname is not registered with the server.
    NotRegistered,
    /// The host has no IPv6 address.
    NoIpv6,
    /// The IPv6 address carries no scope, where one is needed.
    MissingScope,
    /// The response does not answer the request.
    Unexpected,
}

/// The mode that the sub-command `command` stands for.
pub open spec fn mode_of(command: Seq<char>) -> Option<QueryMode> {
    if command == "list"@ {
        Some(QueryMode::List)
    } else if command == "ip"@ {
        Some(QueryMode::QueryIpv6OrV4)
    } else if command == "ipv4"@ {
        Some(QueryMode::QueryIPv4)
    } else if command == "ipv6"@ {
        Some(QueryMode::QueryIPv6)
    } else {
        None
    }
}

/// The request that `mode` sends for `hostname`.
pub open spec fn request_of(mode: QueryMode, hostname: Seq<char>) -> RequestView {
    match mode {
        QueryMode::List => RequestView::NameService(NSRequestView::GetMachineList),
        _ => RequestView::NameService(NSRequestView::QueryIp(hostname)),
    }
}

/// Whether the IPv6 address `addr` carries a scope: a `%` and what
/// follows it.
pub open spec fn has_scope(addr: Seq<char>) -> bool {
    position(addr, '%') < addr.len()
}

/// An IPv6 address as the local tools take it. On a Windows-like system
/// the scope, from the first `%` on, is dropped. Elsewhere the address is
/// kept whole, scope included.
pub open spec fn normalized_ipv6(addr: Seq<char>, windows: bool) -> Seq<char> {
    if windows {
        addr.take(position(addr, '%'))
    } else {
        addr
    }
}

/// The line for an IPv6 address. A system that is not Windows-like has
/// no use for an address without a scope.
pub open spec fn ipv6_line(addr: Seq<char>, windows: bool) -> Result<Seq<Seq<char>>, QueryError> {
    if windows || has_scope(addr) {
        Ok(seq![normalized_ipv6(addr, windows)])
    } else {
        Err(QueryError::MissingScope)
    }
}

/// The line of a machine list for `info`.
pub open spec fn machine_line(info: MachineInfoView) -> Seq<char> {
    info.hostname + " : "@ + info.ipv4_addr + match info.ipv6_addr {
        Some(addr) => " ( "@ + addr + " )"@,
        None => Seq::empty(),
    }
}

/// What is printed for the record of one host.
pub open spec fn address_lines(mode: QueryMode, info: MachineInfoView, windows: bool) -> Result<
    Seq<Seq<char>>,
    QueryError,
> {
    match mode {
        QueryMode::QueryIPv4 => Ok(seq![info.ipv4_addr]),
        QueryMode::QueryIPv6 => match info.ipv6_addr {
            Some(addr) => ipv6_line(addr, windows),
            None => Err(QueryError::NoIpv6),
        },
        QueryMode::QueryIpv6OrV4 => match info.ipv6_addr {
            Some(addr) => ipv6_line(addr, windows),
            None => Ok(seq![info.ipv4_addr]),
        },
        QueryMode::List => Err(QueryError::Unexpected),
    }
}

/// What is printed for `response`, line by line.
pub open spec fn lines_of(mode: QueryMode, response: ResponseView, windows: bool) -> Result<
    Seq<Seq<char>>,
    QueryError,
> {
    match response {
        ResponseView::NameService(NSResponseView::Ip(Some(info))) => address_lines(
            mode,
            info,
            windows,
        ),
        ResponseView::NameService(NSResponseView::Ip(None)) => Err(QueryError::NotRegistered),
        ResponseView::NameService(NSResponseView::MachineList(machines)) => Ok(
            seq!["machine list"@] + Seq::new(machines.len(), |i: int| machine_line(machines[i])),
        ),
        _ => Err(QueryError::Unexpected),
    }
}

/// The view of what `render` returns.
pub open spec fn rendered(result: Result<Vec<String>, QueryError>) -> Result<
    Seq<Seq<char>>,
    QueryError,
> {
    match result {
        Ok(lines) => Ok(texts(lines@)),
        Err(e) => Err(e),
    }
}

/// Reads the sub-command: `list`, `ip`, `ipv4` or `ipv6`.
pub fn parse_mode(command: &str) -> (mode: Option<QueryMode>)
    ensures
        mode == mode_of(command@),
{
    if same_text(command, "list") {
        Some(QueryMode::List)
    } else if same_text(command, "ip") {
        Some(QueryMode::QueryIpv6OrV4)
    } else if same_text(command, "ipv4") {
        Some(QueryMode::QueryIPv4)
    } else if same_text(command, "ipv6") {
        Some(QueryMode::QueryIPv6)
    } else {
        None
    }
}

/// The request to send: the machine list for `List`, a query for
/// `hostname` for every other mode.
pub fn query_request(mode: QueryMode, hostname: String) -> (request: Request)
    ensures
        request@ == request_of(mode, hostname@),
{
    match mode {
        QueryMode::List => Request::NameService(NSRequest::GetMachineList),
        _ => Request::NameService(NSRequest::QueryIp(hostname)),
    }
}

/// Brings an IPv6 address into the form that the local tools take. On a
/// system that is not Windows-like the address has to carry a scope.
pub fn normalize_ipv6(ipv6_addr: &str, windows: bool) -> (addr: String)
    requires
        windows || has_scope(ipv6_addr@),
    ensures
        addr@ == normalized_ipv6(ipv6_addr@, windows),
{
    if windows {
        match find_char(ipv6_addr, '%') {
            Some(at) => ipv6_addr.substring_char(0, at).to_owned(),
            None => {
                proof {
                    assert(ipv6_addr@.take(ipv6_addr@.len() as int) == ipv6_addr@);
                }
                ipv6_addr.to_owned()
            },
        }
    } else {
        ipv6_addr.to_owned()
    }
}

fn line_for(info: &MachineInfo) -> (line: String)
    ensures
        line@ == machine_line(info@),
{
    let mut line = info.hostname.clone();
    line.append(" : ");
    line.append(info.ipv4_addr.as_str());
    match &info.ipv6_addr {
        Some(addr) => {
            line.append(" ( ");
            line.append(addr.as_str());
            line.append(" )");
            proof {
                assert(line@ == info.hostname@ + " : "@ + info.ipv4_addr@ + (" ( "@ + addr@
                    + " )"@));
            }
        },
        None => {
            proof {
                assert(line@ == info.hostname@ + " : "@ + info.ipv4_addr@ + Seq::<char>::empty());
            }
        },
    }
    line
}

fn one_line(line: String) -> (lines: Vec<String>)
    ensures
        texts(lines@) == seq![line@],
{
    let mut lines: Vec<String> = Vec::new();
    lines.push(line);
    assert(texts(lines@) =~= seq![line@]);
    lines
}

fn normalized_line(addr: &str, windows: bool) -> (result: Result<Vec<String>, QueryError>)
    ensures
        rendered(result) == ipv6_line(addr@, windows),
{
    if windows || find_char(addr, '%').is_some() {
        Ok(one_line(normalize_ipv6(addr, windows)))
    } else {
        Err(QueryError::MissingScope)
    }
}

/// Decides what to print for `response`: the lines, or why there are none.
/// A host that is not registered is an error, so that the tool ends with a
/// failure.
pub fn render(mode: QueryMode, response: &Response, windows: bool) -> (result: Result<
    Vec<String>,
    QueryError,
>)
    ensures
        rendered(result) == lines_of(mode, response@, windows),
{
    match response {
        Response::NameService(NSResponse::Ip(Some(info))) => match mode {
            QueryMode::QueryIPv4 => Ok(one_line(info.ipv4_addr.clone())),
            QueryMode::QueryIPv6 => match &info.ipv6_addr {
                Some(addr) => normalized_line(addr.as_str(), windows),
                None => Err(QueryError::NoIpv6),
            },
            QueryMode::QueryIpv6OrV4 => match &info.ipv6_addr {
                Some(addr) => normalized_line(addr.as_str(), windows),
                None => Ok(one_line(info.ipv4_addr.clone())),
            },
            QueryMode::List => Err(QueryError::Unexpected),
        },
        Response::NameService(NSResponse::Ip(None)) => Err(QueryError::NotRegistered),
        Response::NameService(NSResponse::MachineList(machines)) => {
            let mut lines: Vec<String> = Vec::new();
            lines.push("machine list".to_owned());
            let mut i: usize = 0;
            while i < machines.len()
                invariant
                    i <= machines.len(),
                    texts(lines@) == seq!["machine list"@] + Seq::new(
                        i as nat,
                        |k: int| machine_line(infos(machines@)[k]),
                    ),
                decreases machines.len() - i,
            {
                let line = line_for(&machines[i]);
                let ghost before = texts(lines@);
                lines.push(line);
                proof {
                    assert(texts(lines@) == before.push(line@));
                }
                i += 1;
            }
            proof {
                assert(Seq::new(
                    machines@.len(),
                    |k: int| machine_line(infos(machines@)[k]),
                ) == Seq::new(
                    infos(machines@).len(),
                    |k: int| machine_line(infos(machines@)[k]),
                ));
            }
            Ok(lines)
        },
        _ => Err(QueryError::Unexpected),
    }
}

} // verus!

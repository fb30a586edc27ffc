//! What a guest reports about itself: its addresses, picked from the text
//! that the system's network tools print for one interface.

use crate::protocol::{NSRequest, NSRequestView, Request, RequestView};
use crate::text::{
    find_char, lemma_position, opt_text, position, split, split_seq, starts_with, texts,
};
use crate::types::{MachineInfo, MachineInfoView, PortforwardList};
use vstd::prelude::*;
use vstd::string::*;

verus! {

/// The number of seconds between two heartbeats, and between two attempts
/// of the reporter to reach the server.
pub const HEARTBEAT_SECS: u64 = 30;

/// Whether `token` starts with one of `prefixes`.
pub open spec fn starts_with_any(token: Seq<char>, prefixes: Seq<Seq<char>>) -> bool {
    exists|k: int| 0 <= k < prefixes.len() && (#[trigger] prefixes[k]).is_prefix_of(token)
}

/// The first of `tokens` that starts with one of `prefixes`.
pub open spec fn first_candidate(tokens: Seq<Seq<char>>, prefixes: Seq<Seq<char>>) -> Option<
    Seq<char>,
>
    decreases tokens.len(),
{
    if tokens.len() == 0 {
        None
    } else if starts_with_any(tokens[0], prefixes) {
        Some(tokens[0])
    } else {
        first_candidate(tokens.skip(1), prefixes)
    }
}

/// `token` without the mask behind it: what stands before its first `/`,
/// and all of it where it has none.
pub open spec fn without_mask(token: Seq<char>) -> Seq<char> {
    token.take(position(token, '/'))
}

/// The address that `output` reports: the first of its words, which spaces
/// divide, that starts with one of `prefixes`, without its mask.
pub open spec fn address_in(output: Seq<char>, prefixes: Seq<Seq<char>>) -> Option<Seq<char>> {
    match first_candidate(split_seq(output, ' '), prefixes) {
        Some(token) => Some(without_mask(token)),
        None => None,
    }
}

/// The address of an interface: the one that `ip addr` reports, and only
/// where it reports none, the one that `ifconfig` reports.
pub open spec fn interface_addr(
    iproute_output: Seq<char>,
    ifconfig_output: Seq<char>,
    prefixes: Seq<Seq<char>>,
) -> Option<Seq<char>> {
    match address_in(iproute_output, prefixes) {
        Some(addr) => Some(addr),
        None => address_in(ifconfig_output, prefixes),
    }
}

/// `addr` with the scope `eth_name` behind it.
pub open spec fn scoped(addr: Seq<char>, eth_name: Seq<char>) -> Seq<char> {
    addr + seq!['%'] + eth_name
}

/// The IPv6 address of the interface `eth_name`, with the interface as its
/// scope.
pub open spec fn scoped_interface_addr(
    iproute_output: Seq<char>,
    ifconfig_output: Seq<char>,
    prefix: Seq<char>,
    eth_name: Seq<char>,
) -> Option<Seq<char>> {
    match interface_addr(iproute_output, ifconfig_output, seq![prefix]) {
        Some(addr) => Some(scoped(addr, eth_name)),
        None => None,
    }
}

fn has_any_prefix(token: &str, prefixes: &Vec<String>) -> (found: bool)
    ensures
        found == starts_with_any(token@, texts(prefixes@)),
{
    let mut k: usize = 0;
    while k < prefixes.len()
        invariant
            k <= prefixes.len(),
            forall|j: int| 0 <= j < k ==> !(#[trigger] texts(prefixes@)[j]).is_prefix_of(token@),
        decreases prefixes.len() - k,
    {
        if starts_with(token, prefixes[k].as_str()) {
            assert(texts(prefixes@)[k as int] == prefixes@[k as int]@);
            return true;
        }
        assert(texts(prefixes@)[k as int] == prefixes@[k as int]@);
        k += 1;
    }
    false
}

fn find_candidate(output: &str, prefixes: &Vec<String>) -> (found: Option<String>)
    ensures
        opt_text(found) == first_candidate(split_seq(output@, ' '), texts(prefixes@)),
{
    let tokens = split(output, ' ');
    let ghost all = texts(tokens@);
    let mut i: usize = 0;
    assert(all.skip(0) == all);
    while i < tokens.len()
        invariant
            i <= tokens.len(),
            all == texts(tokens@),
            all == split_seq(output@, ' '),
            first_candidate(all.skip(i as int), texts(prefixes@)) == first_candidate(
                all,
                texts(prefixes@),
            ),
        decreases tokens.len() - i,
    {
        let token = tokens[i].as_str();
        proof {
            assert(all.skip(i as int)[0] == token@);
            assert(all.skip(i as int).skip(1) == all.skip(i + 1));
        }
        if has_any_prefix(token, prefixes) {
            return Some(tokens[i].clone());
        }
        i += 1;
    }
    None
}

fn strip_mask(token: &str) -> (addr: String)
    ensures
        addr@ == without_mask(token@),
{
    match find_char(token, '/') {
        Some(at) => token.substring_char(0, at).to_owned(),
        None => {
            proof {
                assert(token@.take(token@.len() as int) == token@);
            }
            token.to_owned()
        },
    }
}

/// Picks an address out of what a network tool printed for an interface,
/// be it `ip addr show dev ..` or `ifconfig ..`: the first word that starts
/// with one of `prefixes`, without the mask that may stand behind it, as
/// `/24` does in `10.0.0.7/24`.
pub fn find_address(output: &str, prefixes: &Vec<String>) -> (addr: Option<String>)
    ensures
        opt_text(addr) == address_in(output@, texts(prefixes@)),
{
    match find_candidate(output, prefixes) {
        Some(token) => Some(strip_mask(token.as_str())),
        None => None,
    }
}

/// The IPv4 address of an interface, from what `ip addr show dev .. | grep
/// inet` and `ifconfig .. | grep inet` printed for it. An address that the
/// first reports wins over one that the second reports.
pub fn get_ipv4addr(iproute_output: &str, ifconfig_output: &str, prefixes: &Vec<String>) -> (addr:
    Option<String>)
    ensures
        opt_text(addr) == interface_addr(iproute_output@, ifconfig_output@, texts(prefixes@)),
{
    match find_address(iproute_output, prefixes) {
        Some(addr) => Some(addr),
        None => find_address(ifconfig_output, prefixes),
    }
}

/// The IPv6 address of the interface `eth_name`, from what `ip addr show
/// dev .. | grep inet6` and `ifconfig .. | grep inet` printed for it: the
/// address that starts with `prefix`, found as an IPv4 address is, with `%`
/// and the interface's name behind it as its scope.
pub fn get_ipv6addr(
    iproute_output: &str,
    ifconfig_output: &str,
    prefix: &str,
    eth_name: &str,
) -> (addr: Option<String>)
    ensures
        opt_text(addr) == scoped_interface_addr(
            iproute_output@,
            ifconfig_output@,
            prefix@,
            eth_name@,
        ),
{
    let mut prefixes: Vec<String> = Vec::new();
    prefixes.push(prefix.to_owned());
    assert(texts(prefixes@) == seq![prefix@]);
    match get_ipv4addr(iproute_output, ifconfig_output, &prefixes) {
        Some(addr) => {
            let mut addr = addr;
            proof {
                reveal_strlit("%");
                assert("%"@ == seq!['%']);
            }
            addr.append("%");
            addr.append(eth_name);
            Some(addr)
        },
        None => None,
    }
}

/// The heartbeat of the machine `hostname` with the addresses and the
/// forwards that were found.
pub fn heartbeat(
    hostname: String,
    ipv4_addr: String,
    ipv6_addr: Option<String>,
    forwards: PortforwardList,
) -> (request: Request)
    ensures
        request@ == RequestView::NameService(
            NSRequestView::Heartbeat(
                MachineInfoView {
                    hostname: hostname@,
                    ipv4_addr: ipv4_addr@,
                    ipv6_addr: opt_text(ipv6_addr),
                },
                forwards@,
            ),
        ),
{
    Request::NameService(
        NSRequest::Heartbeat(MachineInfo { hostname, ipv4_addr, ipv6_addr }, forwards),
    )
}

/// The word that is picked is one of the words and starts with one of the
/// prefixes; where none is picked, no word does.
pub proof fn lemma_first_candidate(tokens: Seq<Seq<char>>, prefixes: Seq<Seq<char>>)
    ensures
        first_candidate(tokens, prefixes) matches Some(token) ==> tokens.contains(token)
            && starts_with_any(token, prefixes),
        first_candidate(tokens, prefixes) is None <==> forall|i: int|
            0 <= i < tokens.len() ==> !starts_with_any(#[trigger] tokens[i], prefixes),
    decreases tokens.len(),
{
    if tokens.len() == 0 {
    } else if starts_with_any(tokens[0], prefixes) {
    } else {
        let rest = tokens.skip(1);
        lemma_first_candidate(rest, prefixes);
        if first_candidate(rest, prefixes) is Some {
            let token = first_candidate(rest, prefixes)->0;
            let i = choose|i: int| 0 <= i < rest.len() && rest[i] == token;
            assert(tokens[i + 1] == token);
        } else {
            assert forall|i: int| 0 <= i < tokens.len() implies !starts_with_any(
                #[trigger] tokens[i],
                prefixes,
            ) by {
                if i > 0 {
                    assert(rest[i - 1] == tokens[i]);
                }
            }
        }
    }
}

/// An address that is found is bare: it holds no `/`. It starts with one
/// of the prefixes, as long as no prefix holds a `/` itself.
pub proof fn lemma_address_is_bare(output: Seq<char>, prefixes: Seq<Seq<char>>)
    ensures
        address_in(output, prefixes) matches Some(addr) ==> !addr.contains('/'),
        address_in(output, prefixes) matches Some(addr) ==> (forall|k: int|
            0 <= k < prefixes.len() ==> !(#[trigger] prefixes[k]).contains('/'))
            ==> starts_with_any(addr, prefixes),
{
    let tokens = split_seq(output, ' ');
    lemma_first_candidate(tokens, prefixes);
    if first_candidate(tokens, prefixes) is Some {
        let token = first_candidate(tokens, prefixes)->0;
        let cut = position(token, '/');
        let addr = without_mask(token);
        lemma_position(token, '/');
        if addr.contains('/') {
            let i = choose|i: int| 0 <= i < addr.len() && addr[i] == '/';
            assert(token[i] == '/');
        }
        if forall|k: int| 0 <= k < prefixes.len() ==> !(#[trigger] prefixes[k]).contains('/') {
            let k = choose|k: int|
                0 <= k < prefixes.len() && (#[trigger] prefixes[k]).is_prefix_of(token);
            let prefix = prefixes[k];
            if cut < prefix.len() {
                assert(token.subrange(0, prefix.len() as int)[cut] == token[cut]);
                assert(prefix[cut] == '/');
                assert(prefix.contains('/'));
            }
            assert(addr.subrange(0, prefix.len() as int) =~= token.subrange(
                0,
                prefix.len() as int,
            ));
            assert(prefix.is_prefix_of(addr));
        }
    }
}

/// An interface has no address exactly if no word of either output starts
/// with one of the prefixes, and what `ip addr` reports wins.
pub proof fn lemma_interface_addr(
    iproute_output: Seq<char>,
    ifconfig_output: Seq<char>,
    prefixes: Seq<Seq<char>>,
)
    ensures
        interface_addr(iproute_output, ifconfig_output, prefixes) is None <==> (forall|i: int|
            0 <= i < split_seq(iproute_output, ' ').len() ==> !starts_with_any(
                #[trigger] split_seq(iproute_output, ' ')[i],
                prefixes,
            )) && (forall|i: int|
            0 <= i < split_seq(ifconfig_output, ' ').len() ==> !starts_with_any(
                #[trigger] split_seq(ifconfig_output, ' ')[i],
                prefixes,
            )),
        address_in(iproute_output, prefixes) is Some ==> interface_addr(
            iproute_output,
            ifconfig_output,
            prefixes,
        ) == address_in(iproute_output, prefixes),
        interface_addr(iproute_output, ifconfig_output, prefixes) matches Some(addr)
            ==> !addr.contains('/'),
{
    lemma_first_candidate(split_seq(iproute_output, ' '), prefixes);
    lemma_first_candidate(split_seq(ifconfig_output, ' '), prefixes);
    lemma_address_is_bare(iproute_output, prefixes);
    lemma_address_is_bare(ifconfig_output, prefixes);
}

} // verus!

//! The machine registry: for each hostname the addresses that its machine
//! reported last.

use crate::text::{opt_text, same_text};
use crate::types::{copy_opt, infos, MachineInfo, MachineInfoView};
use vstd::prelude::*;
use vstd::string::*;

verus! {

/// The addresses of one machine.
#[derive(Debug, Clone, PartialEq, Eq)]
pub struct IpAddrPair {
    pub ipv4_addr: String,
    pub ipv6_addr: Option<String>,
}

/// An `IpAddrPair` over sequences of characters.
pub struct IpAddrPairView {
    pub ipv4_addr: Seq<char>,
    pub ipv6_addr: Option<Seq<char>>,
}

impl View for IpAddrPair {
    type V = IpAddrPairView;

    open spec fn view(&self) -> IpAddrPairView {
        IpAddrPairView { ipv4_addr: self.ipv4_addr@, ipv6_addr: opt_text(self.ipv6_addr) }
    }
}

impl IpAddrPair {
    pub fn new(ipv4_addr: String, ipv6_addr: Option<String>) -> (pair: Self)
        ensures
            pair.ipv4_addr == ipv4_addr,
            pair.ipv6_addr == ipv6_addr,
    {
        Self { ipv4_addr, ipv6_addr }
    }
}

/// The record that the registry gives out for `hostname` with `pair`.
pub open spec fn record(hostname: Seq<char>, pair: IpAddrPairView) -> MachineInfoView {
    MachineInfoView { hostname, ipv4_addr: pair.ipv4_addr, ipv6_addr: pair.ipv6_addr }
}

/// Whether `list` is a snapshot of `registry`: it holds the record of every
/// registered hostname, each once, and nothing else.
pub open spec fn is_snapshot(
    list: Seq<MachineInfoView>,
    registry: Map<Seq<char>, IpAddrPairView>,
) -> bool {
    &&& forall|i: int|
        0 <= i < list.len() ==> registry.contains_key((#[trigger] list[i]).hostname) && list[i]
            == record(list[i].hostname, registry[list[i].hostname])
    &&& forall|hostname: Seq<char>| #[trigger]
        registry.contains_key(hostname) ==> exists|i: int|
            0 <= i < list.len() && (#[trigger] list[i]).hostname == hostname
    &&& forall|i: int, j: int|
        0 <= i < j < list.len() ==> (#[trigger] list[i]).hostname != (#[trigger] list[j]).hostname
}

/// The view of the pair that a lookup found.
pub open spec fn opt_pair(pair: Option<&IpAddrPair>) -> Option<IpAddrPairView> {
    match pair {
        Some(pair) => Some(pair@),
        None => None,
    }
}

struct Entry {
    hostname: String,
    pair: IpAddrPair,
}

/// The registry. Its view is the map from each registered hostname to its
/// addresses. An entry is never removed.
pub struct MachineMap {
    entries: Vec<Entry>,
}

impl View for MachineMap {
    type V = Map<Seq<char>, IpAddrPairView>;

    closed spec fn view(&self) -> Map<Seq<char>, IpAddrPairView> {
        Map::new(
            |hostname: Seq<char>| self.index_of(hostname) < self.entries.len(),
            |hostname: Seq<char>| self.entries[self.index_of(hostname)].pair@,
        )
    }
}

spec fn first_named(entries: Seq<Entry>, hostname: Seq<char>) -> int
    decreases entries.len(),
{
    if entries.len() == 0 || entries[0].hostname@ == hostname {
        0
    } else {
        1 + first_named(entries.skip(1), hostname)
    }
}

proof fn lemma_first_named(entries: Seq<Entry>, hostname: Seq<char>)
    ensures
        0 <= first_named(entries, hostname) <= entries.len(),
        first_named(entries, hostname) < entries.len() ==> entries[first_named(
            entries,
            hostname,
        )].hostname@ == hostname,
        forall|j: int|
            0 <= j < first_named(entries, hostname) ==> (#[trigger] entries[j]).hostname@
                != hostname,
    decreases entries.len(),
{
    if entries.len() == 0 || entries[0].hostname@ == hostname {
    } else {
        let rest = entries.skip(1);
        lemma_first_named(rest, hostname);
        assert forall|j: int| 0 <= j < first_named(entries, hostname) implies (
        #[trigger] entries[j]).hostname@ != hostname by {
            if j > 0 {
                assert(rest[j - 1] == entries[j]);
            }
        }
    }
}

proof fn lemma_first_named_is(entries: Seq<Entry>, hostname: Seq<char>, at: int)
    requires
        0 <= at <= entries.len(),
        at < entries.len() ==> entries[at].hostname@ == hostname,
        forall|j: int| 0 <= j < at ==> (#[trigger] entries[j]).hostname@ != hostname,
    ensures
        first_named(entries, hostname) == at,
{
    lemma_first_named(entries, hostname);
    let found = first_named(entries, hostname);
    if found < at {
        assert(entries[found].hostname@ != hostname);
    }
}

impl MachineMap {
    /// The place of the entry for `hostname`; the number of entries where
    /// there is none.
    closed spec fn index_of(&self, hostname: Seq<char>) -> int {
        first_named(self.entries@, hostname)
    }

    /// What every registry that was built by `new` and `insert` meets: no
    /// hostname has two entries.
    pub closed spec fn wf(&self) -> bool {
        forall|i: int, j: int|
            0 <= i < j < self.entries.len() ==> (#[trigger] self.entries[i]).hostname@ != (
            #[trigger] self.entries[j]).hostname@
    }

    /// A registry without entries.
    pub fn new() -> (registry: Self)
        ensures
            registry.wf(),
            registry@ == Map::<Seq<char>, IpAddrPairView>::empty(),
    {
        let registry = MachineMap { entries: Vec::new() };
        assert(registry@ =~= Map::<Seq<char>, IpAddrPairView>::empty());
        registry
    }

    fn find(&self, hostname: &str) -> (at: usize)
        ensures
            at == self.index_of(hostname@),
            at <= self.entries.len(),
            at < self.entries.len() <==> self@.contains_key(hostname@),
            at < self.entries.len() ==> self@[hostname@] == self.entries[at as int].pair@,
    {
        let mut i: usize = 0;
        proof {
            lemma_first_named(self.entries@, hostname@);
        }
        while i < self.entries.len()
            invariant
                i <= self.entries.len(),
                forall|j: int| 0 <= j < i ==> (#[trigger] self.entries[j]).hostname@ != hostname@,
                0 <= first_named(self.entries@, hostname@) <= self.entries.len(),
                first_named(self.entries@, hostname@) < self.entries.len()
                    ==> self.entries[first_named(self.entries@, hostname@)].hostname@
                    == hostname@,
                forall|j: int|
                    0 <= j < first_named(self.entries@, hostname@) ==> (
                    #[trigger] self.entries[j]).hostname@ != hostname@,
            decreases self.entries.len() - i,
        {
            if same_text(self.entries[i].hostname.as_str(), hostname) {
                return i;
            }
            i += 1;
        }
        i
    }

    /// Registers `hostname` with `ipaddr_pair`, in place of what was
    /// registered for it before; every other entry stays.
    pub fn insert(&mut self, hostname: String, ipaddr_pair: IpAddrPair)
        requires
            old(self).wf(),
        ensures
            final(self).wf(),
            final(self)@ == old(self)@.insert(hostname@, ipaddr_pair@),
    {
        let at = self.find(hostname.as_str());
        if at < self.entries.len() {
            self.entries.set(at, Entry { hostname, pair: ipaddr_pair });
        } else {
            self.entries.push(Entry { hostname, pair: ipaddr_pair });
        }
        proof {
            let before = old(self).entries@;
            let after = self.entries@;
            lemma_first_named(before, hostname@);
            assert forall|name: Seq<char>|
                #![trigger first_named(after, name)]
                first_named(after, name) == (if name == hostname@ {
                    at as int
                } else if first_named(before, name) < before.len() {
                    first_named(before, name)
                } else {
                    after.len() as int
                }) && (name != hostname@ && first_named(before, name) < before.len()
                    ==> first_named(before, name) != at) by {
                lemma_first_named(before, name);
                let found = first_named(before, name);
                if name == hostname@ {
                    lemma_first_named_is(after, name, at as int);
                } else if found < before.len() {
                    lemma_first_named_is(after, name, found);
                } else {
                    lemma_first_named_is(after, name, after.len() as int);
                }
            }
            assert forall|i: int, j: int| 0 <= i < j < after.len() implies (
            #[trigger] after[i]).hostname@ != (#[trigger] after[j]).hostname@ by {
                if at < before.len() {
                    assert(before[i].hostname@ != before[j].hostname@);
                } else if j < before.len() {
                    assert(before[i].hostname@ != before[j].hostname@);
                } else {
                    assert(before[i].hostname@ != hostname@);
                }
            }
            let wanted = old(self)@.insert(hostname@, ipaddr_pair@);
            assert forall|name: Seq<char>| self@.contains_key(name) <==> wanted.contains_key(
                name,
            ) by {
                let found = first_named(after, name);
            }
            assert forall|name: Seq<char>| self@.contains_key(name) implies self@[name]
                == wanted[name] by {
                let found = first_named(after, name);
                if name == hostname@ {
                    assert(after[at as int].pair@ == ipaddr_pair@);
                } else {
                    lemma_first_named(before, name);
                    assert(found == first_named(before, name));
                    assert(after[found] == before[found]);
                    assert(old(self)@.contains_key(name));
                    assert(old(self)@[name] == before[found].pair@);
                }
            }
            assert(self@ =~= wanted);
        }
    }

    /// The addresses that are registered for `hostname`.
    pub fn get(&self, hostname: &str) -> (pair: Option<&IpAddrPair>)
        ensures
            opt_pair(pair) == if self@.contains_key(hostname@) {
                Some(self@[hostname@])
            } else {
                None
            },
    {
        let at = self.find(hostname);
        if at < self.entries.len() {
            Some(&self.entries[at].pair)
        } else {
            None
        }
    }

    /// A snapshot of the registry: one record for each registered hostname,
    /// with the addresses that were registered for it last.
    pub fn iter(&self) -> (list: Vec<MachineInfo>)
        requires
            self.wf(),
        ensures
            is_snapshot(infos(list@), self@),
    {
        let mut list: Vec<MachineInfo> = Vec::new();
        let mut i: usize = 0;
        while i < self.entries.len()
            invariant
                i <= self.entries.len(),
                self.wf(),
                list.len() == i,
                forall|k: int|
                    0 <= k < i ==> (#[trigger] list[k])@ == record(
                        self.entries[k].hostname@,
                        self.entries[k].pair@,
                    ),
            decreases self.entries.len() - i,
        {
            let entry = &self.entries[i];
            list.push(
                MachineInfo {
                    hostname: entry.hostname.clone(),
                    ipv4_addr: entry.pair.ipv4_addr.clone(),
                    ipv6_addr: copy_opt(&entry.pair.ipv6_addr),
                },
            );
            i += 1;
        }
        proof {
            let views = infos(list@);
            let entries = self.entries@;
            assert forall|k: int| 0 <= k < views.len() implies first_named(
                entries,
                (#[trigger] views[k]).hostname,
            ) == k by {
                lemma_first_named_is(entries, entries[k].hostname@, k);
            }
            assert forall|hostname: Seq<char>| #[trigger]
                self@.contains_key(hostname) implies exists|k: int|
                0 <= k < views.len() && (#[trigger] views[k]).hostname == hostname by {
                lemma_first_named(entries, hostname);
                let k = first_named(entries, hostname);
                assert(views[k].hostname == hostname);
            }
        }
        list
    }
}

impl Default for MachineMap {
    /// A registry without entries.
    fn default() -> (registry: Self)
        ensures
            registry.wf(),
            registry@ == Map::<Seq<char>, IpAddrPairView>::empty(),
    {
        MachineMap::new()
    }
}

/// Of two registrations of one hostname the later one is found, whichever
/// of the two it is; the registrations of other hostnames are found as
/// they were, and no hostname is lost.
pub proof fn lemma_last_writer_wins(
    registry: Map<Seq<char>, IpAddrPairView>,
    hostname: Seq<char>,
    first: IpAddrPairView,
    second: IpAddrPairView,
    other: Seq<char>,
)
    ensures
        registry.insert(hostname, first).insert(hostname, second)[hostname] == second,
        registry.insert(hostname, second).insert(hostname, first)[hostname] == first,
        registry.insert(hostname, first).insert(hostname, second) == registry.insert(
            hostname,
            second,
        ),
        registry.dom().subset_of(registry.insert(hostname, second).dom()),
        other != hostname ==> registry.insert(hostname, second).contains_key(other)
            == registry.contains_key(other),
        other != hostname && registry.contains_key(other) ==> registry.insert(
            hostname,
            second,
        )[other] == registry[other],
{
    assert(registry.insert(hostname, first).insert(hostname, second) =~= registry.insert(
        hostname,
        second,
    ));
}

/// A snapshot that is taken after a registration holds the record that was
/// registered, and the record of every hostname as it was registered last.
pub proof fn lemma_snapshot_holds_last_registration(
    list: Seq<MachineInfoView>,
    registry: Map<Seq<char>, IpAddrPairView>,
    hostname: Seq<char>,
    pair: IpAddrPairView,
)
    requires
        is_snapshot(list, registry.insert(hostname, pair)),
    ensures
        list.contains(record(hostname, pair)),
        forall|other: Seq<char>|
            other != hostname && #[trigger] registry.contains_key(other) ==> list.contains(
                record(other, registry[other]),
            ),
        list.len() == registry.insert(hostname, pair).dom().len(),
{
    let after = registry.insert(hostname, pair);
    assert(after.contains_key(hostname));
    let i = choose|i: int| 0 <= i < list.len() && (#[trigger] list[i]).hostname == hostname;
    assert(list[i] == record(hostname, pair));
    assert forall|other: Seq<char>|
        other != hostname && #[trigger] registry.contains_key(other) implies list.contains(
        record(other, registry[other]),
    ) by {
        assert(after.contains_key(other));
        let k = choose|k: int| 0 <= k < list.len() && (#[trigger] list[k]).hostname == other;
        assert(list[k] == record(other, registry[other]));
    }
    lemma_snapshot_len(list, after);
}

/// A snapshot has as many records as the registry has hostnames.
pub proof fn lemma_snapshot_len(list: Seq<MachineInfoView>, registry: Map<Seq<char>, IpAddrPairView>)
    requires
        is_snapshot(list, registry),
    ensures
        registry.dom().finite(),
        list.len() == registry.dom().len(),
    decreases list.len(),
{
    if list.len() == 0 {
        assert(registry.dom() =~= Set::empty());
    } else {
        let last = list.last();
        let rest = list.drop_last();
        let smaller = registry.remove(last.hostname);
        assert forall|hostname: Seq<char>| #[trigger]
            smaller.contains_key(hostname) implies exists|i: int|
            0 <= i < rest.len() && (#[trigger] rest[i]).hostname == hostname by {
            assert(registry.contains_key(hostname));
            let i = choose|i: int| 0 <= i < list.len() && (#[trigger] list[i]).hostname == hostname;
            assert(rest[i] == list[i]);
        }
        assert forall|i: int| 0 <= i < rest.len() implies smaller.contains_key(
            (#[trigger] rest[i]).hostname,
        ) && rest[i] == record(rest[i].hostname, smaller[rest[i].hostname]) by {
            assert(rest[i] == list[i]);
            assert(list[i].hostname != list[list.len() - 1].hostname);
        }
        assert(is_snapshot(rest, smaller)) by {
            assert forall|i: int, j: int| 0 <= i < j < rest.len() implies (
            #[trigger] rest[i]).hostname != (#[trigger] rest[j]).hostname by {
                assert(rest[i] == list[i]);
                assert(rest[j] == list[j]);
            }
        }
        lemma_snapshot_len(rest, smaller);
        assert(registry.contains_key(list[list.len() - 1].hostname));
        assert(smaller.dom() =~= registry.dom().remove(last.hostname));
        assert(registry.dom() =~= smaller.dom().insert(last.hostname));
    }
}

} // verus!

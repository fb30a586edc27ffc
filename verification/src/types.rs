//! The data that guests and server exchange: machine records, port-forward
//! specifications and the ordered, set-like lists of them.

use crate::text::opt_text;
use vstd::prelude::*;
use vstd::string::*;

verus! {

/// What the server knows of one machine: its name and its addresses.
#[derive(Debug, Clone, PartialEq, Eq)]
pub struct MachineInfo {
    pub hostname: String,
    /// The IPv4 address, as a dotted quad.
    pub ipv4_addr: String,
    /// The IPv6 address, which may carry a scope behind a `%`.
    pub ipv6_addr: Option<String>,
}

/// A `MachineInfo` over sequences of characters.
pub struct MachineInfoView {
    pub hostname: Seq<char>,
    pub ipv4_addr: Seq<char>,
    pub ipv6_addr: Option<Seq<char>>,
}

impl View for MachineInfo {
    type V = MachineInfoView;

    open spec fn view(&self) -> MachineInfoView {
        MachineInfoView {
            hostname: self.hostname@,
            ipv4_addr: self.ipv4_addr@,
            ipv6_addr: opt_text(self.ipv6_addr),
        }
    }
}

/// The views of the entries of `v`, in order.
pub open spec fn infos(v: Seq<MachineInfo>) -> Seq<MachineInfoView> {
    Seq::new(v.len(), |i: int| v[i]@)
}

/// A copy of an optional string.
pub fn copy_opt(s: &Option<String>) -> (copy: Option<String>)
    ensures
        copy == *s,
{
    match s {
        Some(s) => Some(s.clone()),
        None => None,
    }
}

impl MachineInfo {
    /// A copy with the same name and addresses.
    pub fn duplicate(&self) -> (copy: Self)
        ensures
            copy == *self,
    {
        MachineInfo {
            hostname: self.hostname.clone(),
            ipv4_addr: self.ipv4_addr.clone(),
            ipv6_addr: copy_opt(&self.ipv6_addr),
        }
    }
}

/// One forwarding rule that a guest advertises: connections to `host_port`
/// on the host are relayed to `guest_port` on the guest.
#[derive(Debug, Clone, Copy, PartialEq, Eq, Structural)]
pub struct PortforwardSpec {
    pub host_port: u16,
    pub guest_port: u16,
}

impl PortforwardSpec {
    pub fn new(host_port: u16, guest_port: u16) -> (spec: Self)
        ensures
            spec.host_port == host_port,
            spec.guest_port == guest_port,
    {
        Self { host_port, guest_port }
    }
}

/// The forwarding rules of one guest, in the order in which they were first
/// seen.
#[derive(Debug, Clone, PartialEq, Eq)]
pub struct PortforwardList {
    pub forwards: Vec<PortforwardSpec>,
}

impl View for PortforwardList {
    type V = Seq<PortforwardSpec>;

    open spec fn view(&self) -> Seq<PortforwardSpec> {
        self.forwards@
    }
}

/// The rules of `given` that a list holding `known` has not seen yet: each
/// once, in the order of its first occurrence in `given`.
pub open spec fn fresh_specs(
    known: Seq<PortforwardSpec>,
    given: Seq<PortforwardSpec>,
) -> Seq<PortforwardSpec>
    decreases given.len(),
{
    if given.len() == 0 {
        Seq::empty()
    } else {
        let earlier = fresh_specs(known, given.drop_last());
        let last = given.last();
        if known.contains(last) || earlier.contains(last) {
            earlier
        } else {
            earlier.push(last)
        }
    }
}

impl PortforwardList {
    pub fn new(forwards: Vec<PortforwardSpec>) -> (list: Self)
        ensures
            list.forwards == forwards,
    {
        Self { forwards }
    }

    /// Whether the list holds a rule with both ports equal to those of `forward`.
    pub fn has_elem(&self, forward: &PortforwardSpec) -> (found: bool)
        ensures
            found == self@.contains(*forward),
    {
        let mut i: usize = 0;
        while i < self.forwards.len()
            invariant
                i <= self.forwards.len(),
                forall|j: int| 0 <= j < i ==> self.forwards@[j] != *forward,
            decreases self.forwards.len() - i,
        {
            if self.forwards[i] == *forward {
                return true;
            }
            i += 1;
        }
        false
    }

    /// Appends `forward` at the end, whether or not the list holds it already.
    pub fn append_elem(&mut self, forward: PortforwardSpec)
        ensures
            final(self)@ == old(self)@.push(forward),
    {
        self.forwards.push(forward);
    }

    /// Takes over the rules of `forward_list` that this list does not hold yet
    /// and returns them, in the order in which they were appended.
    pub fn merge_elem(&mut self, forward_list: &PortforwardList) -> (added: Vec<PortforwardSpec>)
        ensures
            added@ == fresh_specs(old(self)@, forward_list@),
            final(self)@ == old(self)@ + added@,
    {
        let mut added: Vec<PortforwardSpec> = Vec::new();
        let mut i: usize = 0;
        while i < forward_list.forwards.len()
            invariant
                i <= forward_list.forwards.len(),
                added@ == fresh_specs(old(self)@, forward_list@.take(i as int)),
                self@ == old(self)@ + added@,
            decreases forward_list.forwards.len() - i,
        {
            let forward = forward_list.forwards[i];
            proof {
                let upto = forward_list@.take(i + 1);
                assert(upto.drop_last() == forward_list@.take(i as int));
                assert(upto.last() == forward);
                lemma_contains_concat(old(self)@, added@, forward);
            }
            if !self.has_elem(&forward) {
                self.append_elem(forward);
                added.push(forward);
            }
            i += 1;
        }
        proof {
            assert(forward_list@.take(i as int) == forward_list@);
        }
        added
    }
}

/// A rule occurs in a concatenation exactly if it occurs in one of the parts.
pub proof fn lemma_contains_concat(
    left: Seq<PortforwardSpec>,
    right: Seq<PortforwardSpec>,
    item: PortforwardSpec,
)
    ensures
        (left + right).contains(item) <==> left.contains(item) || right.contains(item),
{
    if left.contains(item) {
        let i = choose|i: int| 0 <= i < left.len() && left[i] == item;
        assert((left + right)[i] == item);
    }
    if right.contains(item) {
        let i = choose|i: int| 0 <= i < right.len() && right[i] == item;
        assert((left + right)[left.len() + i] == item);
    }
    if (left + right).contains(item) {
        let i = choose|i: int| 0 <= i < (left + right).len() && (left + right)[i] == item;
        if i < left.len() {
            assert(left[i] == item);
        } else {
            assert(right[i - left.len()] == item);
        }
    }
}

/// What a merge takes over is new: each rule of it is one of those given,
/// is not known yet, and is taken over once.
pub proof fn lemma_fresh_specs_are_new(known: Seq<PortforwardSpec>, given: Seq<PortforwardSpec>)
    ensures
        forall|i: int|
            0 <= i < fresh_specs(known, given).len() ==> given.contains(
                #[trigger] fresh_specs(known, given)[i],
            ) && !known.contains(fresh_specs(known, given)[i]),
        fresh_specs(known, given).no_duplicates(),
        fresh_specs(known, given).len() <= given.len(),
    decreases given.len(),
{
    if given.len() > 0 {
        let earlier = fresh_specs(known, given.drop_last());
        let fresh = fresh_specs(known, given);
        lemma_fresh_specs_are_new(known, given.drop_last());
        assert forall|i: int| 0 <= i < fresh.len() implies given.contains(#[trigger] fresh[i])
            && !known.contains(fresh[i]) by {
            if i < earlier.len() {
                assert(fresh[i] == earlier[i]);
                let k = choose|k: int|
                    0 <= k < given.drop_last().len() && given.drop_last()[k] == earlier[i];
                assert(given[k] == earlier[i]);
            } else {
                assert(fresh[i] == given.last());
                assert(given[given.len() - 1] == given.last());
            }
        }
        assert forall|i: int, j: int| 0 <= i < fresh.len() && 0 <= j < fresh.len() && i
            != j implies fresh[i] != fresh[j] by {
            if i < earlier.len() && j < earlier.len() {
                assert(earlier[i] != earlier[j]);
            } else if i < earlier.len() {
                assert(earlier.contains(earlier[i]));
            } else if j < earlier.len() {
                assert(earlier.contains(earlier[j]));
            }
        }
    }
}

/// After a merge the list holds every rule that was given.
pub proof fn lemma_merge_covers(known: Seq<PortforwardSpec>, given: Seq<PortforwardSpec>)
    ensures
        forall|i: int|
            0 <= i < given.len() ==> (known + fresh_specs(known, given)).contains(
                #[trigger] given[i],
            ),
    decreases given.len(),
{
    if given.len() > 0 {
        let shorter = given.drop_last();
        let earlier = fresh_specs(known, shorter);
        let fresh = fresh_specs(known, given);
        lemma_merge_covers(known, shorter);
        assert forall|i: int| 0 <= i < given.len() implies (known + fresh).contains(
            #[trigger] given[i],
        ) by {
            let item = given[i];
            lemma_contains_concat(known, fresh, item);
            lemma_contains_concat(known, earlier, item);
            if i < shorter.len() {
                assert(shorter[i] == item);
                if earlier.contains(item) {
                    let k = choose|k: int| 0 <= k < earlier.len() && earlier[k] == item;
                    assert(fresh[k] == item);
                }
            } else {
                if !known.contains(item) && !earlier.contains(item) {
                    assert(fresh[fresh.len() - 1] == item);
                } else if earlier.contains(item) {
                    let k = choose|k: int| 0 <= k < earlier.len() && earlier[k] == item;
                    assert(fresh[k] == item);
                }
            }
        }
    }
}

/// Rules that the list holds already are passed over: where every rule
/// that is given is known, a merge takes nothing over.
pub proof fn lemma_known_specs_are_ignored(
    known: Seq<PortforwardSpec>,
    given: Seq<PortforwardSpec>,
)
    requires
        forall|i: int| 0 <= i < given.len() ==> known.contains(#[trigger] given[i]),
    ensures
        fresh_specs(known, given) == Seq::<PortforwardSpec>::empty(),
    decreases given.len(),
{
    if given.len() > 0 {
        let shorter = given.drop_last();
        assert forall|i: int| 0 <= i < shorter.len() implies known.contains(
            #[trigger] shorter[i],
        ) by {
            assert(shorter[i] == given[i]);
        }
        lemma_known_specs_are_ignored(known, shorter);
        assert(known.contains(given[given.len() - 1]));
    }
}

/// Merging the same list a second time takes nothing over.
pub proof fn lemma_merge_is_idempotent(known: Seq<PortforwardSpec>, given: Seq<PortforwardSpec>)
    ensures
        fresh_specs(known + fresh_specs(known, given), given) == Seq::<PortforwardSpec>::empty(),
{
    lemma_merge_covers(known, given);
    lemma_known_specs_are_ignored(known + fresh_specs(known, given), given);
}

/// A list without duplicates stays without duplicates under a merge, and
/// what it held stays at the front, in its order.
pub proof fn lemma_merge_keeps_order(known: Seq<PortforwardSpec>, given: Seq<PortforwardSpec>)
    requires
        known.no_duplicates(),
    ensures
        (known + fresh_specs(known, given)).no_duplicates(),
        known.is_prefix_of(known + fresh_specs(known, given)),
{
    let fresh = fresh_specs(known, given);
    let merged = known + fresh;
    lemma_fresh_specs_are_new(known, given);
    assert forall|i: int, j: int| 0 <= i < merged.len() && 0 <= j < merged.len() && i
        != j implies merged[i] != merged[j] by {
        if i < known.len() && j < known.len() {
        } else if i < known.len() {
            assert(known.contains(known[i]));
            assert(merged[j] == fresh[j - known.len()]);
        } else if j < known.len() {
            assert(known.contains(known[j]));
            assert(merged[i] == fresh[i - known.len()]);
        } else {
            assert(merged[i] == fresh[i - known.len()]);
            assert(merged[j] == fresh[j - known.len()]);
        }
    }
    assert(merged.subrange(0, known.len() as int) =~= known);
}

} // verus!

//! The hosts of a run and the per-host completion flags.
//!
//! A registry is built once from the list of addresses. It keeps one entry
//! for each distinct address, in the order in which the addresses were first
//! seen, and one flag for each entry that tells whether a credential has
//! already succeeded there. The flags are the only part that changes later,
//! and they change in one direction only.

use itertools::Itertools;
use vstd::prelude::*;

verus! {

/// The sequence `s` without every element that has occurred before: of equal
/// elements the first stays, and what stays keeps its order.
pub open spec fn first_occurrences<T>(s: Seq<T>) -> Seq<T>
    decreases s.len(),
{
    if s.len() == 0 {
        Seq::empty()
    } else {
        let earlier = first_occurrences(s.drop_last());
        if earlier.contains(s.last()) {
            earlier
        } else {
            earlier.push(s.last())
        }
    }
}

/// What `first_occurrences` keeps: nothing twice, every element of `s` and no
/// other, and never more than `s` holds.
pub proof fn lemma_first_occurrences_distinct<T>(s: Seq<T>)
    ensures
        first_occurrences(s).no_duplicates(),
        forall|x: T| #[trigger] first_occurrences(s).contains(x) <==> s.contains(x),
        first_occurrences(s).len() <= s.len(),
    decreases s.len(),
{
    if s.len() > 0 {
        let front = s.drop_last();
        let earlier = first_occurrences(front);
        let kept = first_occurrences(s);
        lemma_first_occurrences_distinct(front);
        assert forall|x: T| #[trigger] kept.contains(x) <==> s.contains(x) by {
            assert(earlier.contains(x) <==> front.contains(x));
            if kept.contains(x) {
                let i = choose|i: int| 0 <= i < kept.len() && kept[i] == x;
                if i < earlier.len() {
                    assert(earlier[i] == x);
                    assert(earlier.contains(x));
                    let j = choose|j: int| 0 <= j < front.len() && front[j] == x;
                    assert(s[j] == x);
                } else {
                    assert(s[s.len() - 1] == x);
                }
            }
            if s.contains(x) {
                let j = choose|j: int| 0 <= j < s.len() && s[j] == x;
                if j < front.len() {
                    assert(front[j] == x);
                    assert(front.contains(x));
                    let i = choose|i: int| 0 <= i < earlier.len() && earlier[i] == x;
                    assert(kept[i] == x);
                } else if earlier.contains(x) {
                } else {
                    assert(kept[kept.len() - 1] == x);
                }
            }
        }
    }
}

/// Addresses that come later never move a host that is already there: the
/// hosts of the first `n` addresses are the first hosts of the whole list.
pub proof fn lemma_first_occurrences_stable<T>(s: Seq<T>, n: int)
    requires
        0 <= n <= s.len(),
    ensures
        first_occurrences(s.take(n)).is_prefix_of(first_occurrences(s)),
    decreases s.len(),
{
    if n == s.len() {
        assert(s.take(n) =~= s);
    } else {
        let front = s.drop_last();
        lemma_first_occurrences_stable(front, n);
        assert(front.take(n) =~= s.take(n));
    }
}

/// A list that holds nothing twice is kept as it is.
pub proof fn lemma_first_occurrences_of_distinct<T>(s: Seq<T>)
    requires
        s.no_duplicates(),
    ensures
        first_occurrences(s) == s,
    decreases s.len(),
{
    if s.len() > 0 {
        let front = s.drop_last();
        lemma_first_occurrences_of_distinct(front);
        if front.contains(s.last()) {
            let j = choose|j: int| 0 <= j < front.len() && front[j] == s.last();
            assert(s[j] == s[s.len() - 1]);
        }
        assert(front.push(s.last()) =~= s);
    }
}

/// Calls `Itertools::unique` on the addresses, in their order.
///
/// Trusted: the adaptor yields an element when it meets it for the first time
/// and drops every later element equal to one already seen, so what comes out
/// is `first_occurrences` of what went in. Two strings are equal, and hash
/// alike, exactly when their characters are the same.
#[verifier::external_body]
fn unique_addresses(addresses: Vec<String>) -> (kept: Vec<String>)
    ensures
        kept.deep_view() == first_occurrences(addresses.deep_view()),
{
    addresses.into_iter().unique().collect()
}

/// A target of the run: an address and its place in the registry.
#[derive(Debug)]
pub struct Host {
    pub index: usize,
    pub address: String,
}

/// What a `Host` stands for.
pub struct HostView {
    pub index: nat,
    pub address: Seq<char>,
}

impl View for Host {
    type V = HostView;

    open spec fn view(&self) -> HostView {
        HostView { index: self.index as nat, address: self.address@ }
    }
}

impl DeepView for Host {
    type V = HostView;

    open spec fn deep_view(&self) -> HostView {
        self@
    }
}

impl Clone for Host {
    fn clone(&self) -> (copy: Self)
        ensures
            copy == *self,
    {
        Host { index: self.index, address: self.address.clone() }
    }
}

/// The completion flag of one host. It starts unset, and nothing unsets it.
pub struct HostStatus {
    found: bool,
}

impl View for HostStatus {
    type V = bool;

    closed spec fn view(&self) -> bool {
        self.found
    }
}

impl HostStatus {
    /// The flag of a host for which nothing has succeeded yet.
    pub fn new() -> (status: Self)
        ensures
            !status@,
    {
        HostStatus { found: false }
    }

    /// Whether a credential has succeeded for the host.
    pub fn is_found(&self) -> (found: bool)
        ensures
            found == self@,
    {
        self.found
    }

    /// Records a success. On a flag that is already set this changes nothing.
    pub fn mark_found(&mut self)
        ensures
            final(self)@,
            old(self)@ ==> *final(self) == *old(self),
    {
        self.found = true;
    }
}

/// What a `HostRegistry` stands for: its hosts in order, and for each of them
/// whether a credential has been found.
pub struct RegistryView {
    pub hosts: Seq<HostView>,
    pub found: Seq<bool>,
}

impl RegistryView {
    /// The addresses of the hosts, in order.
    pub open spec fn addresses(self) -> Seq<Seq<char>> {
        Seq::new(self.hosts.len(), |i: int| self.hosts[i].address)
    }

    /// Every host has one flag, stands at the place its index names, and has
    /// an address of its own.
    pub open spec fn wf(self) -> bool {
        &&& self.found.len() == self.hosts.len()
        &&& forall|i: int| 0 <= i < self.hosts.len() ==> (#[trigger] self.hosts[i]).index == i
        &&& self.addresses().no_duplicates()
    }

    /// No host has a credential yet.
    pub open spec fn untouched(self) -> bool {
        forall|i: int| 0 <= i < self.found.len() ==> !self.found[i]
    }
}

/// One host of a registry with its flag.
struct Entry {
    host: Host,
    status: HostStatus,
}

/// The deduplicated, index-stable list of hosts with their flags.
pub struct HostRegistry {
    entries: Vec<Entry>,
}

impl View for HostRegistry {
    type V = RegistryView;

    closed spec fn view(&self) -> RegistryView {
        RegistryView {
            hosts: Seq::new(self.entries.len() as nat, |i: int| self.entries[i].host@),
            found: Seq::new(self.entries.len() as nat, |i: int| self.entries[i].status@),
        }
    }
}

impl HostRegistry {
    /// Every host of a registry has its flag, whatever was done to the
    /// registry.
    pub proof fn lemma_one_flag_per_host(&self)
        ensures
            self@.found.len() == self@.hosts.len(),
    {
    }

    /// Builds the registry of a list of addresses. An address that occurs
    /// again is dropped; the others get the indices 0, 1, 2, ... in the order
    /// in which they first appear. No flag is set.
    pub fn register(addresses: Vec<String>) -> (registry: Self)
        ensures
            registry@.wf(),
            registry@.addresses() == first_occurrences(addresses.deep_view()),
            registry@.untouched(),
            registry@.hosts.len() <= addresses.len(),
    {
        let ghost given = addresses.deep_view();
        let kept = unique_addresses(addresses);
        let mut entries: Vec<Entry> = Vec::new();
        let mut i: usize = 0;
        while i < kept.len()
            invariant
                i <= kept.len(),
                entries.len() == i,
                forall|k: int| 0 <= k < i ==> (#[trigger] entries[k]).host@ == (HostView {
                    index: k as nat,
                    address: kept[k]@,
                }),
                forall|k: int| 0 <= k < i ==> !(#[trigger] entries[k]).status@,
            decreases kept.len() - i,
        {
            entries.push(
                Entry {
                    host: Host { index: i, address: kept[i].clone() },
                    status: HostStatus::new(),
                },
            );
            i += 1;
        }
        let registry = HostRegistry { entries };
        proof {
            lemma_first_occurrences_distinct(given);
            assert(registry@.addresses() =~= kept.deep_view());
        }
        registry
    }

    /// The number of hosts.
    pub fn len(&self) -> (n: usize)
        ensures
            n == self@.hosts.len(),
            n == self@.found.len(),
    {
        self.entries.len()
    }

    /// A copy of the hosts, in the order of their indices.
    pub fn hosts(&self) -> (hosts: Vec<Host>)
        ensures
            hosts.deep_view() == self@.hosts,
    {
        let mut hosts: Vec<Host> = Vec::new();
        let mut i: usize = 0;
        while i < self.entries.len()
            invariant
                i <= self.entries.len(),
                hosts.len() == i,
                forall|k: int| 0 <= k < i ==> (#[trigger] hosts[k])@ == self.entries[k].host@,
            decreases self.entries.len() - i,
        {
            hosts.push(self.entries[i].host.clone());
            i += 1;
        }
        proof {
            assert(hosts.deep_view() =~= self@.hosts);
        }
        hosts
    }

    /// The host with the given index.
    pub fn host(&self, index: usize) -> (host: &Host)
        requires
            index < self@.hosts.len(),
        ensures
            host@ == self@.hosts[index as int],
    {
        &self.entries[index].host
    }

    /// The flag of the host with the given index.
    pub fn status(&self, index: usize) -> (status: &HostStatus)
        requires
            index < self@.hosts.len(),
        ensures
            status@ == self@.found[index as int],
    {
        &self.entries[index].status
    }

    /// Whether a credential has already succeeded for the host.
    pub fn is_found(&self, index: usize) -> (found: bool)
        requires
            index < self@.hosts.len(),
        ensures
            found == self@.found[index as int],
    {
        self.entries[index].status.is_found()
    }

    /// Records that a credential has succeeded for the host. The hosts stay
    /// as they are, no other flag changes, and on a host that is already
    /// marked the call changes nothing at all.
    pub fn mark_found(&mut self, index: usize)
        requires
            index < old(self)@.hosts.len(),
        ensures
            final(self)@.hosts == old(self)@.hosts,
            final(self)@.found == old(self)@.found.update(index as int, true),
            final(self)@.found[index as int],
            old(self)@.found[index as int] ==> final(self)@ == old(self)@,
            old(self)@.wf() ==> final(self)@.wf(),
    {
        self.entries[index].status.mark_found();
        proof {
            assert(self@.hosts =~= old(self)@.hosts);
            assert(self@.found =~= old(self)@.found.update(index as int, true));
            if old(self)@.found[index as int] {
                assert(self@.found =~= old(self)@.found);
            }
        }
    }
}

} // verus!

use vstd::prelude::*;

use crate::matching::{re_is_whole_match, re_whole_match};
use crate::net::{contains_addr, net_contains, IpNet};
use crate::seqs::{lemma_filter_complement_len, lemma_filter_push};

verus! {

/// A snapshot of one host network interface, taken once at startup.
pub struct HostInterface {
    /// The interface's name, unique on the host at a point in time.
    pub name: String,
    /// Whether the interface is administratively up.
    pub up: bool,
    /// Whether the interface is a loopback device.
    pub loopback: bool,
    /// The IPv4 networks assigned to the interface.
    pub nets: Vec<IpNet>,
}

impl HostInterface {
    /// Every assigned network carries a valid prefix length.
    pub open spec fn wf(self) -> bool {
        forall|i: int| 0 <= i < self.nets@.len() ==> (#[trigger] self.nets@[i]).wf()
    }
}

/// Every interface of the sequence is well formed.
pub open spec fn wf_ifaces(s: Seq<HostInterface>) -> bool {
    forall|i: int| 0 <= i < s.len() ==> (#[trigger] s[i]).wf()
}

/// The interface owns a network that contains `addr` (prefix match).
pub open spec fn iface_contains(h: HostInterface, addr: u32) -> bool {
    exists|i: int| 0 <= i < h.nets@.len() && net_contains(#[trigger] h.nets@[i], addr)
}

/// `addr` is one of the interface's own (bound) addresses.
pub open spec fn iface_has_addr(h: HostInterface, addr: u32) -> bool {
    exists|i: int| 0 <= i < h.nets@.len() && (#[trigger] h.nets@[i]).addr == addr
}

/// The interface takes part in relaying: it is up, not a loopback, has at
/// least one address, and its name matches the configured selection pattern.
pub open spec fn relay_eligible(h: HostInterface, pattern: Seq<char>) -> bool {
    h.up && !h.loopback && h.nets@.len() > 0 && re_whole_match(pattern, h.name@)
}

/// Tests whether `addr` is one of the interface's own addresses.
pub fn owns_addr(h: &HostInterface, addr: u32) -> (r: bool)
    ensures
        r == iface_has_addr(*h, addr),
{
    let mut i: usize = 0;
    while i < h.nets.len()
        invariant
            i <= h.nets@.len(),
            forall|j: int| 0 <= j < i ==> (#[trigger] h.nets@[j]).addr != addr,
        decreases h.nets@.len() - i,
    {
        if h.nets[i].addr == addr {
            return true;
        }
        i = i + 1;
    }
    false
}

/// Tests whether one of the interface's networks contains `addr`.
pub fn contains_source(h: &HostInterface, addr: u32) -> (r: bool)
    requires
        h.wf(),
    ensures
        r == iface_contains(*h, addr),
{
    let mut i: usize = 0;
    while i < h.nets.len()
        invariant
            h.wf(),
            i <= h.nets@.len(),
            forall|j: int| 0 <= j < i ==> !net_contains(#[trigger] h.nets@[j], addr),
        decreases h.nets@.len() - i,
    {
        if contains_addr(&h.nets[i], addr) {
            return true;
        }
        i = i + 1;
    }
    false
}

/// Decides relay eligibility of one interface against the selection pattern.
pub fn is_relay_eligible(h: &HostInterface, pattern: &str) -> (r: bool)
    ensures
        r == relay_eligible(*h, pattern@),
{
    h.up && !h.loopback && h.nets.len() > 0 && re_is_whole_match(pattern, h.name.as_str())
}

/// Splits the discovered interfaces into the relay-eligible ones and the
/// observed-only rest, in their original order. Every interface lands in
/// exactly one of the two parts.
pub fn partition_interfaces(ifaces: Vec<HostInterface>, pattern: &str) -> (r: (
    Vec<HostInterface>,
    Vec<HostInterface>,
))
    ensures
        r.0@ == ifaces@.filter(|h: HostInterface| relay_eligible(h, pattern@)),
        r.1@ == ifaces@.filter(|h: HostInterface| !relay_eligible(h, pattern@)),
{
    let ghost orig = ifaces@;
    let mut rest = ifaces;
    let mut relay: Vec<HostInterface> = Vec::new();
    let mut observed: Vec<HostInterface> = Vec::new();
    while rest.len() > 0
        invariant
            rest@.len() <= orig.len(),
            rest@ == orig.subrange(orig.len() - rest@.len(), orig.len() as int),
            relay@ == orig.subrange(0, orig.len() - rest@.len()).filter(
                |h: HostInterface| relay_eligible(h, pattern@),
            ),
            observed@ == orig.subrange(0, orig.len() - rest@.len()).filter(
                |h: HostInterface| !relay_eligible(h, pattern@),
            ),
        decreases rest@.len(),
    {
        let ghost done = orig.subrange(0, orig.len() - rest@.len());
        let h = rest.remove(0);
        proof {
            assert(h == orig[done.len() as int]);
            assert(orig.subrange(0, done.len() as int + 1) =~= done.push(h));
            assert(rest@ =~= orig.subrange(orig.len() - rest@.len(), orig.len() as int));
            lemma_filter_push(done, |x: HostInterface| relay_eligible(x, pattern@), h);
            lemma_filter_push(done, |x: HostInterface| !relay_eligible(x, pattern@), h);
        }
        if is_relay_eligible(&h, pattern) {
            relay.push(h);
        } else {
            observed.push(h);
        }
    }
    proof {
        assert(orig.subrange(0, orig.len() as int) =~= orig);
    }
    (relay, observed)
}

/// The partition invariant: the relay-eligible part and the observed-only
/// part together hold exactly the discovered interfaces, each part contains
/// only interfaces of its own kind, and every discovered interface belongs to
/// one of the two.
pub proof fn lemma_partition_exact(s: Seq<HostInterface>, pattern: Seq<char>)
    ensures
        s.filter(|h: HostInterface| relay_eligible(h, pattern)).len() + s.filter(
            |h: HostInterface| !relay_eligible(h, pattern),
        ).len() == s.len(),
        forall|h: HostInterface|
            s.filter(|h2: HostInterface| relay_eligible(h2, pattern)).contains(h)
                ==> relay_eligible(h, pattern),
        forall|h: HostInterface|
            s.filter(|h2: HostInterface| !relay_eligible(h2, pattern)).contains(h)
                ==> !relay_eligible(h, pattern),
        forall|i: int|
            0 <= i < s.len() ==> s.filter(|h2: HostInterface| relay_eligible(h2, pattern)).contains(
                #[trigger] s[i],
            ) || s.filter(|h2: HostInterface| !relay_eligible(h2, pattern)).contains(s[i]),
{
    broadcast use vstd::seq_lib::group_filter_ensures;

    lemma_filter_complement_len(
        s,
        |h: HostInterface| relay_eligible(h, pattern),
        |h: HostInterface| !relay_eligible(h, pattern),
    );
}

/// The first index whose interface owns a network containing `addr`.
pub open spec fn find_origin(s: Seq<HostInterface>, addr: u32) -> Option<int>
    decreases s.len(),
{
    if s.len() == 0 {
        None
    } else if iface_contains(s[0], addr) {
        Some(0int)
    } else {
        match find_origin(s.drop_first(), addr) {
            None => None,
            Some(i) => Some(i + 1),
        }
    }
}

/// The origin of a datagram with source `addr`: the first relay interface
/// whose network contains it, else the first observed-only one. The flag is
/// true when the origin is observed-only (filtered out of relaying).
pub open spec fn resolve_spec(
    relay: Seq<HostInterface>,
    observed: Seq<HostInterface>,
    addr: u32,
) -> Option<(bool, Seq<char>)> {
    match find_origin(relay, addr) {
        Some(i) => Some((false, relay[i].name@)),
        None => match find_origin(observed, addr) {
            Some(i) => Some((true, observed[i].name@)),
            None => None,
        },
    }
}

proof fn lemma_find_origin_at(s: Seq<HostInterface>, addr: u32, i: int)
    requires
        0 <= i < s.len(),
        iface_contains(s[i], addr),
        forall|j: int| 0 <= j < i ==> !iface_contains(#[trigger] s[j], addr),
    ensures
        find_origin(s, addr) == Some(i),
    decreases i,
{
    if i > 0 {
        lemma_find_origin_at(s.drop_first(), addr, i - 1);
    }
}

proof fn lemma_find_origin_none(s: Seq<HostInterface>, addr: u32)
    requires
        forall|j: int| 0 <= j < s.len() ==> !iface_contains(#[trigger] s[j], addr),
    ensures
        find_origin(s, addr) is None,
    decreases s.len(),
{
    if s.len() > 0 {
        lemma_find_origin_none(s.drop_first(), addr);
    }
}

/// Finds which interface a datagram with source address `addr` arrived on:
/// relay interfaces are scanned first, observed-only ones second, and the
/// first interface owning a containing network wins. Returns the interface's
/// name and whether it is observed-only; `None` when no interface's network
/// contains the address.
pub fn resolve_origin(
    relay: &Vec<HostInterface>,
    observed: &Vec<HostInterface>,
    addr: u32,
) -> (r: Option<(bool, String)>)
    requires
        wf_ifaces(relay@),
        wf_ifaces(observed@),
    ensures
        match r {
            Some(p) => resolve_spec(relay@, observed@, addr) == Some((p.0, p.1@)),
            None => resolve_spec(relay@, observed@, addr) is None,
        },
{
    let mut i: usize = 0;
    while i < relay.len()
        invariant
            wf_ifaces(relay@),
            i <= relay@.len(),
            forall|j: int| 0 <= j < i ==> !iface_contains(#[trigger] relay@[j], addr),
        decreases relay@.len() - i,
    {
        if contains_source(&relay[i], addr) {
            proof {
                lemma_find_origin_at(relay@, addr, i as int);
            }
            return Some((false, relay[i].name.clone()));
        }
        i = i + 1;
    }
    proof {
        lemma_find_origin_none(relay@, addr);
    }
    let mut k: usize = 0;
    while k < observed.len()
        invariant
            wf_ifaces(observed@),
            k <= observed@.len(),
            find_origin(relay@, addr) is None,
            forall|j: int| 0 <= j < k ==> !iface_contains(#[trigger] observed@[j], addr),
        decreases observed@.len() - k,
    {
        if contains_source(&observed[k], addr) {
            proof {
                lemma_find_origin_at(observed@, addr, k as int);
            }
            return Some((true, observed[k].name.clone()));
        }
        k = k + 1;
    }
    proof {
        lemma_find_origin_none(observed@, addr);
    }
    None
}

/// A datagram is this process's own transmission looping back when its source
/// address equals the ingress socket's bound address or any bound address of
/// a relay interface.
pub open spec fn self_origin(relay: Seq<HostInterface>, ingress_addr: u32, src: u32) -> bool {
    src == ingress_addr || exists|i: int|
        0 <= i < relay.len() && iface_has_addr(#[trigger] relay[i], src)
}

/// Tests whether a source address is one of this process's own bound
/// addresses (the first half of loop prevention).
pub fn is_self_origin(relay: &Vec<HostInterface>, ingress_addr: u32, src: u32) -> (r: bool)
    ensures
        r == self_origin(relay@, ingress_addr, src),
{
    if src == ingress_addr {
        return true;
    }
    let mut i: usize = 0;
    while i < relay.len()
        invariant
            i <= relay@.len(),
            forall|j: int| 0 <= j < i ==> !iface_has_addr(#[trigger] relay@[j], src),
        decreases relay@.len() - i,
    {
        if owns_addr(&relay[i], src) {
            return true;
        }
        i = i + 1;
    }
    false
}

} // verus!

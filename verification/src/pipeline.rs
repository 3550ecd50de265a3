use vstd::prelude::*;

use crate::classify::{classify, dns_names};
use crate::iface::{
    is_self_origin, partition_interfaces, relay_eligible, resolve_origin, resolve_spec,
    self_origin, wf_ifaces, HostInterface,
};
use crate::rules::{destinations, evaluate, lemma_destinations_same_names, names_view, Config, Rule};
use crate::seqs::lemma_filter_subset;

verus! {

/// The immutable per-process state built once at startup: the partitioned
/// interface table, the rule list, the selection pattern they were partitioned
/// by, and the ingress socket's bound address.
pub struct RelayContext {
    pub pattern: String,
    pub relay: Vec<HostInterface>,
    pub observed: Vec<HostInterface>,
    pub rules: Vec<Rule>,
    pub ingress_addr: u32,
}

impl RelayContext {
    /// Interfaces are well formed, every relay interface is relay-eligible
    /// under the stored pattern, and every observed-only interface is not.
    pub open spec fn wf(self) -> bool {
        &&& wf_ifaces(self.relay@)
        &&& wf_ifaces(self.observed@)
        &&& forall|i: int|
            0 <= i < self.relay@.len() ==> relay_eligible(#[trigger] self.relay@[i], self.pattern@)
        &&& forall|i: int|
            0 <= i < self.observed@.len() ==> !relay_eligible(
                #[trigger] self.observed@[i],
                self.pattern@,
            )
    }

    /// The names of the relay interfaces, in table order.
    pub open spec fn relay_names_spec(self) -> Seq<String> {
        self.relay@.map_values(|h: HostInterface| h.name)
    }

    /// Builds the startup context: partitions the discovered interfaces by
    /// the configured selection pattern and keeps the rule list and the
    /// ingress socket's bound address.
    pub fn new(ifaces: Vec<HostInterface>, config: Config, ingress_addr: u32) -> (ctx:
        RelayContext)
        requires
            wf_ifaces(ifaces@),
        ensures
            ctx.wf(),
            ctx.relay@ == ifaces@.filter(
                |h: HostInterface| relay_eligible(h, config.interfaces@),
            ),
            ctx.observed@ == ifaces@.filter(
                |h: HostInterface| !relay_eligible(h, config.interfaces@),
            ),
            ctx.rules == config.rules,
            ctx.pattern == config.interfaces,
            ctx.ingress_addr == ingress_addr,
    {
        let ghost orig = ifaces@;
        let (relay, observed) = partition_interfaces(ifaces, config.interfaces.as_str());
        proof {
            broadcast use vstd::seq_lib::group_filter_ensures;

            lemma_filter_subset(orig, |h: HostInterface| relay_eligible(h, config.interfaces@));
            lemma_filter_subset(orig, |h: HostInterface| !relay_eligible(h, config.interfaces@));
            assert forall|i: int| 0 <= i < relay@.len() implies (#[trigger] relay@[i]).wf() by {
                let j = choose|j: int| 0 <= j < orig.len() && orig[j] == relay@[i];
            }
            assert forall|i: int| 0 <= i < observed@.len() implies (
            #[trigger] observed@[i]).wf() by {
                let j = choose|j: int| 0 <= j < orig.len() && orig[j] == observed@[i];
            }
        }
        RelayContext { pattern: config.interfaces, relay, observed, rules: config.rules, ingress_addr }
    }
}

/// Extracts the relay interface names, in table order.
pub fn relay_names(relay: &Vec<HostInterface>) -> (out: Vec<String>)
    ensures
        out@ == relay@.map_values(|h: HostInterface| h.name),
{
    let mut out: Vec<String> = Vec::new();
    let mut i: usize = 0;
    while i < relay.len()
        invariant
            i <= relay@.len(),
            out@ == relay@.subrange(0, i as int).map_values(|h: HostInterface| h.name),
        decreases relay@.len() - i,
    {
        out.push(relay[i].name.clone());
        proof {
            assert(relay@.subrange(0, i as int + 1).map_values(|h: HostInterface| h.name)
                =~= relay@.subrange(0, i as int).map_values(|h: HostInterface| h.name).push(
                relay@[i as int].name,
            ));
        }
        i = i + 1;
    }
    proof {
        assert(relay@.subrange(0, relay@.len() as int) =~= relay@);
    }
    out
}

/// What the pipeline decides for one inbound datagram.
pub enum Verdict {
    /// The source address is one of this process's own bound addresses:
    /// dropped silently (expected multicast reflection).
    DropSelfOrigin,
    /// No interface's network contains the source address: logged and
    /// dropped.
    DropForeignOrigin,
    /// The source belongs to an observed-only interface: dropped before any
    /// rule is evaluated.
    DropFilteredOrigin,
    /// The buffer is not a valid DNS message: logged and dropped.
    DropMalformed,
    /// Relay the unmodified payload to each named destination interface.
    Relay { origin: String, destinations: Vec<String>, payload: Vec<u8> },
}

/// The pipeline's full contract for one datagram: loop-guard screening first,
/// then origin resolution, then classification, then rule evaluation; a relay
/// verdict carries the resolved origin, the computed destinations and the
/// payload bit-identical to the received bytes.
pub open spec fn verdict_matches(ctx: RelayContext, data: Seq<u8>, src: u32, v: Verdict) -> bool {
    if self_origin(ctx.relay@, ctx.ingress_addr, src) {
        v is DropSelfOrigin
    } else {
        match resolve_spec(ctx.relay@, ctx.observed@, src) {
            None => v is DropForeignOrigin,
            Some((filtered, origin_name)) => if filtered {
                v is DropFilteredOrigin
            } else {
                match dns_names(data) {
                    None => v is DropMalformed,
                    Some(names) => v matches Verdict::Relay {
                        origin: o,
                        destinations: d,
                        payload: pl,
                    } && o@ == origin_name && pl@ == data && d@ == destinations(
                        ctx.relay_names_spec(),
                        origin_name,
                        names.0,
                        names.1,
                        ctx.rules@,
                    ),
                }
            },
        }
    }
}

/// Decides the fate of one inbound datagram: self-originated and
/// observed-only traffic is dropped before any rule is evaluated, datagrams
/// from unknown sources or with malformed payloads are dropped, and otherwise
/// the destination interfaces are computed and the payload handed back
/// byte-for-byte.
pub fn process_datagram(ctx: &RelayContext, data: &[u8], src: u32) -> (v: Verdict)
    requires
        ctx.wf(),
    ensures
        verdict_matches(*ctx, data@, src, v),
        self_origin(ctx.relay@, ctx.ingress_addr, src) <==> v is DropSelfOrigin,
        v matches Verdict::Relay { origin: o, destinations: d, payload: pl } ==> pl@ == data@
            && forall|i: int| 0 <= i < d@.len() ==> (#[trigger] d@[i])@ != o@,
{
    if is_self_origin(&ctx.relay, ctx.ingress_addr, src) {
        return Verdict::DropSelfOrigin;
    }
    match resolve_origin(&ctx.relay, &ctx.observed, src) {
        None => Verdict::DropForeignOrigin,
        Some((filtered, origin)) => {
            if filtered {
                return Verdict::DropFilteredOrigin;
            }
            match classify(data) {
                None => Verdict::DropMalformed,
                Some(cp) => {
                    let names = relay_names(&ctx.relay);
                    let dests = evaluate(&origin, &cp.questions, &cp.answers, &ctx.rules, &names);
                    proof {
                        let parsed = dns_names(data@)->0;
                        lemma_destinations_same_names(
                            ctx.relay_names_spec(),
                            origin@,
                            names_view(cp.questions@),
                            parsed.0,
                            names_view(cp.answers@),
                            parsed.1,
                            ctx.rules@,
                        );
                    }
                    let payload = vstd::slice::slice_to_vec(data);
                    Verdict::Relay { origin, destinations: dests, payload }
                },
            }
        },
    }
}

/// Law: a datagram whose source address is a bound relay-egress address or
/// the ingress address is dropped without the Rule Engine ever running; in
/// particular it is never relayed.
pub proof fn lemma_self_origin_short_circuit(ctx: RelayContext, data: Seq<u8>, src: u32, v: Verdict)
    requires
        verdict_matches(ctx, data, src, v),
        self_origin(ctx.relay@, ctx.ingress_addr, src),
    ensures
        v is DropSelfOrigin,
        !(v is Relay),
{
}

/// Law: whenever a datagram is relayed, the payload sent is bit-identical to
/// the payload received, and the origin interface is never among the
/// destinations.
pub proof fn lemma_relay_exact(
    ctx: RelayContext,
    data: Seq<u8>,
    src: u32,
    origin: String,
    dests: Vec<String>,
    payload: Vec<u8>,
)
    requires
        verdict_matches(ctx, data, src, (Verdict::Relay { origin, destinations: dests, payload })),
    ensures
        payload@ == data,
        forall|i: int| 0 <= i < dests@.len() ==> (#[trigger] dests@[i])@ != origin@,
{
    let names = dns_names(data)->0;
    crate::rules::lemma_origin_not_destination(
        ctx.relay_names_spec(),
        origin@,
        names.0,
        names.1,
        ctx.rules@,
    );
}

} // verus!

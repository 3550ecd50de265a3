use mdns_repeater::iface::HostInterface;
use mdns_repeater::net::{ipv4_from_octets, IpNet};
use mdns_repeater::pipeline::{process_datagram, RelayContext, Verdict};
use mdns_repeater::rules::{Config, Rule};

fn s(x: &str) -> String {
    String::from(x)
}

fn iface(name: &str, up: bool, loopback: bool, nets: Vec<IpNet>) -> HostInterface {
    HostInterface { name: s(name), up, loopback, nets }
}

fn net(a: u8, b: u8, c: u8, d: u8, prefix: u8) -> IpNet {
    IpNet { addr: ipv4_from_octets(a, b, c, d), prefix }
}

fn query_bytes(qname: &str) -> Vec<u8> {
    let mut p = simple_dns::Packet::new_query(0);
    p.questions.push(simple_dns::Question::new(
        simple_dns::Name::new_unchecked(qname),
        simple_dns::TYPE::PTR.into(),
        simple_dns::CLASS::IN.into(),
        false,
    ));
    p.build_bytes_vec().unwrap()
}

fn test_context() -> RelayContext {
    let ifaces = vec![
        iface("lan-home", true, false, vec![net(192, 168, 1, 1, 24)]),
        iface("lan-services", true, false, vec![net(192, 168, 2, 1, 24)]),
        iface("wan0", true, false, vec![net(10, 0, 0, 1, 8)]),
        iface("lo", true, true, vec![net(127, 0, 0, 1, 8)]),
    ];
    let config = Config {
        interfaces: s("^lan.*$"),
        rules: vec![Rule {
            from: s("lan-home"),
            to: s("lan-services"),
            allow_questions: Some(s(".*")),
            allow_answers: None,
        }],
    };
    RelayContext::new(ifaces, config, ipv4_from_octets(224, 0, 0, 251))
}

#[test]
fn context_partitions_interfaces() {
    let ctx = test_context();
    let relay: Vec<&str> = ctx.relay.iter().map(|h| h.name.as_str()).collect();
    let observed: Vec<&str> = ctx.observed.iter().map(|h| h.name.as_str()).collect();
    assert_eq!(relay, vec!["lan-home", "lan-services"]);
    assert_eq!(observed, vec!["wan0", "lo"]);
}

#[test]
fn query_is_relayed_to_matching_interface() {
    // Scenario A: a question from inside lan-home's network is relayed to
    // lan-services, and the payload is bit-identical to the received bytes.
    let ctx = test_context();
    let data = query_bytes("_http._tcp.local");
    let v = process_datagram(&ctx, &data, ipv4_from_octets(192, 168, 1, 50));
    match v {
        Verdict::Relay { origin, destinations, payload } => {
            assert_eq!(origin, s("lan-home"));
            assert_eq!(destinations, vec![s("lan-services")]);
            assert_eq!(payload, data);
        }
        _ => panic!("expected a relay verdict"),
    }
}

#[test]
fn unmatched_origin_relays_nowhere() {
    // Scenario B: a packet from lan-services matches no rule's `from`, so the
    // destination set is empty and nothing is relayed.
    let ctx = test_context();
    let data = query_bytes("_http._tcp.local");
    let v = process_datagram(&ctx, &data, ipv4_from_octets(192, 168, 2, 50));
    match v {
        Verdict::Relay { origin, destinations, .. } => {
            assert_eq!(origin, s("lan-services"));
            assert!(destinations.is_empty());
        }
        _ => panic!("expected a relay verdict with no destinations"),
    }
}

#[test]
fn observed_only_origin_is_dropped_before_rules() {
    // Scenario C: wan0 is up and has an IP but its name does not match the
    // selection pattern; its traffic is dropped whatever the rules say.
    let ifaces = vec![
        iface("lan-home", true, false, vec![net(192, 168, 1, 1, 24)]),
        iface("wan0", true, false, vec![net(10, 0, 0, 1, 8)]),
    ];
    let config = Config {
        interfaces: s("^lan.*$"),
        rules: vec![Rule {
            from: s(".*"),
            to: s(".*"),
            allow_questions: Some(s(".*")),
            allow_answers: Some(s(".*")),
        }],
    };
    let ctx = RelayContext::new(ifaces, config, ipv4_from_octets(224, 0, 0, 251));
    let data = query_bytes("_http._tcp.local");
    let v = process_datagram(&ctx, &data, ipv4_from_octets(10, 0, 0, 7));
    assert!(matches!(v, Verdict::DropFilteredOrigin));
}

#[test]
fn self_origin_is_dropped_silently() {
    // A source equal to a bound relay-egress address, or to the ingress
    // address, is this process's own reflection: dropped before anything else.
    let ctx = test_context();
    let data = query_bytes("_http._tcp.local");
    let from_egress = process_datagram(&ctx, &data, ipv4_from_octets(192, 168, 1, 1));
    assert!(matches!(from_egress, Verdict::DropSelfOrigin));
    let from_second_egress = process_datagram(&ctx, &data, ipv4_from_octets(192, 168, 2, 1));
    assert!(matches!(from_second_egress, Verdict::DropSelfOrigin));
    let from_ingress = process_datagram(&ctx, &data, ipv4_from_octets(224, 0, 0, 251));
    assert!(matches!(from_ingress, Verdict::DropSelfOrigin));
}

#[test]
fn foreign_source_is_dropped() {
    // No interface's network contains the source: a normal, non-fatal drop.
    let ctx = test_context();
    let data = query_bytes("_http._tcp.local");
    let v = process_datagram(&ctx, &data, ipv4_from_octets(203, 0, 113, 9));
    assert!(matches!(v, Verdict::DropForeignOrigin));
}

#[test]
fn malformed_buffer_is_dropped_and_pipeline_continues() {
    // Scenario E: a buffer that is not a valid DNS message yields a malformed
    // verdict, and the pipeline keeps working on the next datagram.
    let ctx = test_context();
    let garbage = vec![0xFFu8, 0x00, 0x13];
    let v = process_datagram(&ctx, &garbage, ipv4_from_octets(192, 168, 1, 50));
    assert!(matches!(v, Verdict::DropMalformed));
    let data = query_bytes("_http._tcp.local");
    let next = process_datagram(&ctx, &data, ipv4_from_octets(192, 168, 1, 50));
    assert!(matches!(next, Verdict::Relay { .. }));
}

#[test]
fn pattern_to_expands_to_every_match_in_pipeline() {
    // Scenario D end to end: a literal `to` and a pattern `to` side by side;
    // the pattern expands to every matching relay interface.
    let ifaces = vec![
        iface("lan-home", true, false, vec![net(192, 168, 1, 1, 24)]),
        iface("lan-services", true, false, vec![net(192, 168, 2, 1, 24)]),
        iface("lan-guest", true, false, vec![net(192, 168, 3, 1, 24)]),
    ];
    let config = Config {
        interfaces: s("^lan.*$"),
        rules: vec![
            Rule {
                from: s("lan-home"),
                to: s("lan-services"),
                allow_questions: Some(s(".*")),
                allow_answers: None,
            },
            Rule {
                from: s("lan-home"),
                to: s("^lan.*$"),
                allow_questions: Some(s(".*")),
                allow_answers: None,
            },
        ],
    };
    let ctx = RelayContext::new(ifaces, config, ipv4_from_octets(224, 0, 0, 251));
    let data = query_bytes("_printer._tcp.local");
    let v = process_datagram(&ctx, &data, ipv4_from_octets(192, 168, 1, 77));
    match v {
        Verdict::Relay { origin, destinations, .. } => {
            assert_eq!(origin, s("lan-home"));
            // Both remaining lan interfaces, never the origin.
            assert_eq!(destinations, vec![s("lan-services"), s("lan-guest")]);
        }
        _ => panic!("expected a relay verdict"),
    }
}

#[test]
fn down_interface_is_not_relay_eligible() {
    let ifaces = vec![
        iface("lan-home", true, false, vec![net(192, 168, 1, 1, 24)]),
        iface("lan-sleepy", false, false, vec![net(192, 168, 5, 1, 24)]),
        iface("lan-bare", true, false, vec![]),
    ];
    let config = Config { interfaces: s("^lan.*$"), rules: vec![] };
    let ctx = RelayContext::new(ifaces, config, ipv4_from_octets(224, 0, 0, 251));
    let relay: Vec<&str> = ctx.relay.iter().map(|h| h.name.as_str()).collect();
    let observed: Vec<&str> = ctx.observed.iter().map(|h| h.name.as_str()).collect();
    assert_eq!(relay, vec!["lan-home"]);
    assert_eq!(observed, vec!["lan-sleepy", "lan-bare"]);
}

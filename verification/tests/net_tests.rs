use mdns_repeater::net::{contains_addr, ipv4_from_octets, IpNet};

#[test]
fn octets_compose_exactly() {
    assert_eq!(ipv4_from_octets(192, 168, 1, 1), 0xC0A8_0101);
    assert_eq!(ipv4_from_octets(224, 0, 0, 251), 0xE000_00FB);
    assert_eq!(ipv4_from_octets(0, 0, 0, 0), 0);
    assert_eq!(ipv4_from_octets(255, 255, 255, 255), 0xFFFF_FFFF);
}

#[test]
fn prefix_containment_inside() {
    let net = IpNet { addr: ipv4_from_octets(192, 168, 1, 1), prefix: 24 };
    assert!(contains_addr(&net, ipv4_from_octets(192, 168, 1, 50)));
    assert!(contains_addr(&net, ipv4_from_octets(192, 168, 1, 255)));
}

#[test]
fn prefix_containment_outside() {
    let net = IpNet { addr: ipv4_from_octets(192, 168, 1, 1), prefix: 24 };
    assert!(!contains_addr(&net, ipv4_from_octets(192, 168, 2, 50)));
    assert!(!contains_addr(&net, ipv4_from_octets(10, 0, 0, 1)));
}

#[test]
fn prefix_zero_contains_everything() {
    let net = IpNet { addr: ipv4_from_octets(1, 2, 3, 4), prefix: 0 };
    assert!(contains_addr(&net, ipv4_from_octets(200, 100, 50, 25)));
    assert!(contains_addr(&net, 0));
}

#[test]
fn prefix_thirty_two_is_one_host() {
    let net = IpNet { addr: ipv4_from_octets(192, 168, 1, 7), prefix: 32 };
    assert!(contains_addr(&net, ipv4_from_octets(192, 168, 1, 7)));
    assert!(!contains_addr(&net, ipv4_from_octets(192, 168, 1, 8)));
}

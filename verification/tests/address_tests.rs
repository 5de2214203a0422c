use node_supervisor::address::first_port;
use node_supervisor::address::rewrite_port;
use node_supervisor::types::AddressError;

#[test]
fn rewrite_tcp_component() {
    let r = rewrite_port("/ip4/127.0.0.1/tcp/2428", 9000).unwrap();
    assert_eq!(r, "/ip4/127.0.0.1/tcp/9000");
}

#[test]
fn rewrite_udp_component() {
    let r = rewrite_port("/ip4/10.0.0.1/udp/53", 4242).unwrap();
    assert_eq!(r, "/ip4/10.0.0.1/udp/4242");
}

#[test]
fn rewrite_preserves_other_components() {
    let r = rewrite_port("/ip4/1.2.3.4/udp/53/quic-v1", 9999).unwrap();
    assert_eq!(r, "/ip4/1.2.3.4/udp/9999/quic-v1");
}

#[test]
fn rewrite_no_transport_unchanged() {
    let r = rewrite_port("/ip4/192.168.0.7", 9000).unwrap();
    assert_eq!(r, "/ip4/192.168.0.7");
}

#[test]
fn rewrite_overwrite_idempotent() {
    let once = rewrite_port("/ip4/127.0.0.1/tcp/2428", 7777).unwrap();
    let twice = rewrite_port(&rewrite_port("/ip4/127.0.0.1/tcp/2428", 1234).unwrap(), 7777)
        .unwrap();
    assert_eq!(once, twice);
}

#[test]
fn rewrite_malformed_address() {
    let r = rewrite_port("not an address", 9000);
    assert!(matches!(r, Err(AddressError::Malformed)));
}

#[test]
fn rewrite_port_too_large() {
    let r = rewrite_port("/ip4/127.0.0.1/tcp/2428", 70000);
    assert!(matches!(r, Err(AddressError::InvalidPort)));
}

#[test]
fn first_port_finds_the_transport_port() {
    assert_eq!(first_port("/ip4/1.2.3.4/tcp/81/p2p-circuit"), Some(81));
    assert_eq!(first_port("/ip4/1.2.3.4/udp/53"), Some(53));
    assert_eq!(first_port("/ip4/1.2.3.4"), None);
    assert_eq!(first_port("garbage"), None);
}

#[test]
fn rewrite_ipv6_address() {
    let r = rewrite_port("/ip6/::1/tcp/2428", 9000).unwrap();
    assert_eq!(r, "/ip6/::1/tcp/9000");
}

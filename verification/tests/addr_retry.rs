use quicheperf::addr::IpAddress;
use quicheperf::addr::SocketAddress;
use quicheperf::bytes::bytes_equal;
use quicheperf::bytes::starts_with;
use quicheperf::bytes::tail_from;
use quicheperf::retry::mint_token;
use quicheperf::retry::validate_token;

#[test]
fn v4_octets_come_in_network_order() {
    let ip = IpAddress::from_v4_octets(192, 168, 1, 20);
    assert_eq!(ip, IpAddress::V4(0xc0a8_0114));
    assert_eq!(ip.octets(), vec![192, 168, 1, 20]);
    assert!(ip.is_v4());
}

#[test]
fn v6_octets_come_in_network_order() {
    let ip = IpAddress::V6(0x2001_0db8_0000_0000_0000_0000_0000_0001);
    assert_eq!(
        ip.octets(),
        vec![0x20, 0x01, 0x0d, 0xb8, 0, 0, 0, 0, 0, 0, 0, 0, 0, 0, 0, 1]
    );
    assert!(!ip.is_v4());
}

#[test]
fn socket_addresses_compare_by_ip_and_port() {
    let a = SocketAddress::new(IpAddress::from_v4_octets(127, 0, 0, 1), 4433);
    let b = SocketAddress::new(IpAddress::from_v4_octets(127, 0, 0, 1), 4433);
    let c = SocketAddress::new(IpAddress::from_v4_octets(127, 0, 0, 1), 4434);
    let d = SocketAddress::new(IpAddress::from_v4_octets(127, 0, 0, 2), 4433);
    assert_eq!(a, b);
    assert_ne!(a, c);
    assert_ne!(a, d);
}

#[test]
fn byte_helpers() {
    assert!(bytes_equal(&[1, 2, 3], &[1, 2, 3]));
    assert!(!bytes_equal(&[1, 2, 3], &[1, 2]));
    assert!(!bytes_equal(&[1, 2, 3], &[1, 2, 4]));
    assert!(bytes_equal(&[], &[]));
    assert!(starts_with(&[1, 2, 3], &[1, 2]));
    assert!(starts_with(&[1, 2, 3], &[]));
    assert!(!starts_with(&[1, 2], &[1, 2, 3]));
    assert!(!starts_with(&[1, 2, 3], &[2]));
    assert_eq!(tail_from(&[1, 2, 3], 1), vec![2, 3]);
    assert_eq!(tail_from(&[1, 2, 3], 3), Vec::<u8>::new());
}

#[test]
fn a_token_is_tag_address_and_connection_id() {
    let ip = IpAddress::from_v4_octets(10, 0, 0, 7);
    let token = mint_token(&[0xaa, 0xbb, 0xcc], &ip);
    assert_eq!(token, vec![b'q', b'u', b'i', b'c', b'h', b'e', 10, 0, 0, 7, 0xaa, 0xbb, 0xcc]);
}

#[test]
fn a_token_is_valid_for_its_address_only() {
    let ip = IpAddress::from_v4_octets(10, 0, 0, 7);
    let other = IpAddress::from_v4_octets(10, 0, 0, 8);
    let dcid = vec![1u8, 2, 3, 4, 5, 6, 7, 8];
    let token = mint_token(&dcid, &ip);
    assert_eq!(validate_token(&ip, &token), Some(dcid));
    assert_eq!(validate_token(&other, &token), None);
}

#[test]
fn a_v6_token_round_trips() {
    let ip = IpAddress::V6(1);
    let dcid = vec![9u8; 20];
    let token = mint_token(&dcid, &ip);
    assert_eq!(token.len(), 6 + 16 + 20);
    assert_eq!(validate_token(&ip, &token), Some(dcid));
    assert_eq!(validate_token(&IpAddress::V6(2), &token), None);
    assert_eq!(validate_token(&IpAddress::from_v4_octets(1, 0, 0, 0), &token), None);
}

#[test]
fn a_token_does_not_tell_the_address_family() {
    let token = mint_token(&[9u8; 4], &IpAddress::V6(1));
    let mut rest = vec![0u8; 11];
    rest.push(1);
    rest.extend_from_slice(&[9u8; 4]);
    assert_eq!(validate_token(&IpAddress::from_v4_octets(0, 0, 0, 0), &token), Some(rest));
}

#[test]
fn malformed_tokens_are_refused() {
    let ip = IpAddress::from_v4_octets(1, 2, 3, 4);
    assert_eq!(validate_token(&ip, &[]), None);
    assert_eq!(validate_token(&ip, b"quich"), None);
    assert_eq!(validate_token(&ip, b"quiche"), None);
    assert_eq!(validate_token(&ip, b"quiche\x01\x02\x03"), None);
    assert_eq!(validate_token(&ip, b"Quiche\x01\x02\x03\x04"), None);
    assert_eq!(validate_token(&ip, b"quiche\x01\x02\x03\x04"), Some(vec![]));
    assert_eq!(validate_token(&ip, b"quiche\x01\x02\x03\x04\xff"), Some(vec![0xff]));
}

use wormhole_relay::addr::{IpAddress, SocketAddress};
use wormhole_relay::ingress_udp::{hex, peek_quic_dcid, route_datagram};
use wormhole_relay::router::Router;

fn long_header_packet(dcid: &[u8]) -> Vec<u8> {
    let mut p = vec![0xC0u8];
    p.extend_from_slice(&[0x00, 0x00, 0x00, 0x01]);
    p.push(dcid.len() as u8);
    p.extend_from_slice(dcid);
    p.extend_from_slice(&[0x00, 0xAA, 0xBB]);
    p
}

fn short_header_packet(dcid: &[u8; 8]) -> Vec<u8> {
    let mut p = vec![0x40u8];
    p.extend_from_slice(dcid);
    p.extend_from_slice(&[0xDE, 0xAD]);
    p
}

#[test]
fn extracts_dcid_from_long_header() {
    let dcid = [0x01, 0x02, 0x03, 0x04, 0x05, 0x06, 0x07, 0x08];
    let pkt = long_header_packet(&dcid);
    assert_eq!(peek_quic_dcid(&pkt), Some("0102030405060708".to_string()));
}

#[test]
fn extracts_dcid_from_short_header() {
    let dcid = [0xAA, 0xBB, 0xCC, 0xDD, 0xEE, 0xFF, 0x11, 0x22];
    let pkt = short_header_packet(&dcid);
    assert_eq!(peek_quic_dcid(&pkt), Some("aabbccddeeff1122".to_string()));
}

#[test]
fn returns_none_for_empty_packet() {
    assert_eq!(peek_quic_dcid(&[]), None);
}

#[test]
fn returns_none_for_short_packet() {
    assert_eq!(peek_quic_dcid(&[0x40, 0x01]), None);
}

#[test]
fn returns_none_for_zero_dcid_length_in_long_header() {
    let pkt = vec![0xC0, 0, 0, 0, 1, 0, 0xAA];
    assert_eq!(peek_quic_dcid(&pkt), None);
}

#[test]
fn long_header_dcid_running_past_the_end_is_rejected() {
    // DCID length 20 but only 3 bytes follow.
    let pkt = vec![0xC0, 0, 0, 0, 1, 20, 0xAA, 0xBB, 0xCC];
    assert_eq!(peek_quic_dcid(&pkt), None);
}

#[test]
fn long_header_shorter_than_seven_bytes_is_rejected() {
    assert_eq!(peek_quic_dcid(&[0xC0, 0, 0, 0, 1, 1]), None);
}

#[test]
fn long_header_dcid_may_end_the_packet() {
    let pkt = vec![0x80, 0, 0, 0, 1, 1, 0x7f];
    assert_eq!(peek_quic_dcid(&pkt), Some("7f".to_string()));
}

#[test]
fn short_header_of_exactly_nine_bytes_is_accepted() {
    let pkt = [0x00, 1, 2, 3, 4, 5, 6, 7, 0xff];
    assert_eq!(peek_quic_dcid(&pkt), Some("01020304050607ff".to_string()));
}

#[test]
fn hex_is_two_lowercase_digits_per_byte() {
    assert_eq!(hex(&[]), "");
    assert_eq!(hex(&[0x00, 0x0f, 0xa0, 0xff]), "000fa0ff");
}

#[test]
fn datagram_without_dcid_is_dropped_untouched() {
    let mut router = Router::new();
    let caller = SocketAddress { ip: IpAddress::V4(0x7f00_0001), port: 50000, flowinfo: 0, scope_id: 0 };
    assert!(route_datagram(&mut router, 443, &[0x40, 0x01], caller, 10).is_none());
    assert_eq!(router.total_rejected_datagrams, 0);
}

#[test]
fn datagram_is_routed_by_its_dcid() {
    let mut router = Router::new();
    router.register("conn-1".to_string(), Some("t.local".to_string()), true).unwrap();
    let dcid = [1u8, 2, 3, 4, 5, 6, 7, 8];
    router.map_dcid_to_sni("0102030405060708", "t.local".to_string(), 5);
    let caller = SocketAddress { ip: IpAddress::V4(0x0a00_0001), port: 4000, flowinfo: 0, scope_id: 0 };
    let pkt = short_header_packet(&dcid);
    let fwd = route_datagram(&mut router, 443, &pkt, caller, 10).expect("routed");
    assert_eq!(fwd.stable_id, "conn-1");
    assert_eq!(&fwd.frame[..4], &[0x01, 0xBB, 0x00, 0x01]);
    assert_eq!(&fwd.frame[4..], &pkt[..]);
}

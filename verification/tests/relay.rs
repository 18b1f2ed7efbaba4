use wormhole_relay::addr::{IpAddress, SocketAddress};
use wormhole_relay::relay::{
    admit_connection, certificate_name, egress_target, extract_san_from_der,
    relay_transport_settings, Admission, CertificateNames, Rejection,
};
use wormhole_relay::router::{udp_frame_bytes, Router};

#[test]
fn extract_san_returns_none_for_garbage() {
    assert!(extract_san_from_der(b"not a cert").is_none());
}

#[test]
fn extract_san_returns_none_for_empty() {
    assert!(extract_san_from_der(b"").is_none());
}

#[test]
fn extract_san_reads_the_first_dns_name() {
    let certified =
        rcgen::generate_simple_self_signed(vec!["client.tunnel".to_string(), "other.tunnel".to_string()])
            .unwrap();
    let der = certified.cert.der().to_vec();
    assert_eq!(extract_san_from_der(&der), Some("client.tunnel".to_string()));
}

#[test]
fn extract_san_falls_back_to_common_name() {
    let mut params = rcgen::CertificateParams::new(Vec::<String>::new()).unwrap();
    params
        .distinguished_name
        .push(rcgen::DnType::CommonName, "cn.tunnel");
    let key = rcgen::KeyPair::generate().unwrap();
    let cert = params.self_signed(&key).unwrap();
    assert_eq!(extract_san_from_der(cert.der()), Some("cn.tunnel".to_string()));
}

fn caller(last: u8, port: u16) -> SocketAddress {
    SocketAddress { ip: IpAddress::V4(0x7f00_0000 | last as u32), port, flowinfo: 0, scope_id: 0 }
}

#[test]
fn mtls_admission_uses_certificate_name_and_rejects_without_one() {
    let mut router = Router::new();
    match admit_connection(&mut router, true, None, Some("sni.local".to_string()), "1".to_string()) {
        Admission::Rejected(r) => {
            assert_eq!(r, Rejection::MissingClientSan);
            assert_eq!(r.close_reason(), "missing client certificate SAN");
            assert_eq!(r.close_code(), 1);
        }
        Admission::Accepted(_) => panic!("must reject"),
    }
    assert_eq!(router.active_tunnels(), 0);
    match admit_connection(
        &mut router,
        true,
        Some("cert.local".to_string()),
        Some("sni.local".to_string()),
        "1".to_string(),
    ) {
        Admission::Accepted(reg) => assert_eq!(reg.key, "cert.local"),
        Admission::Rejected(_) => panic!("must accept"),
    }
    assert_eq!(router.tunnel_stable_id("cert.local"), Some("1".to_string()));
}

#[test]
fn mtls_admission_takes_a_held_key_over() {
    let mut router = Router::new();
    assert!(matches!(
        admit_connection(&mut router, true, Some("cert.local".to_string()), None, "1".to_string()),
        Admission::Accepted(_)
    ));
    match admit_connection(&mut router, true, Some("cert.local".to_string()), None, "2".to_string()) {
        Admission::Accepted(reg) => {
            assert_eq!(reg.key, "cert.local");
            assert_eq!(reg.replaced, Some("1".to_string()));
        }
        Admission::Rejected(_) => panic!("mTLS takeover must be accepted"),
    }
    assert_eq!(router.active_tunnels(), 1);
    assert_eq!(router.tunnel_stable_id("cert.local"), Some("2".to_string()));
}

#[test]
fn unsecure_admission_uses_server_name_or_stable_id() {
    let mut router = Router::new();
    match admit_connection(&mut router, false, None, None, "77".to_string()) {
        Admission::Accepted(reg) => assert_eq!(reg.key, "77"),
        Admission::Rejected(_) => panic!("must accept"),
    }
    match admit_connection(&mut router, false, None, Some("dev.local".to_string()), "78".to_string()) {
        Admission::Accepted(reg) => {
            assert_eq!(reg.key, "dev.local");
            assert_eq!(reg.replaced, None);
        }
        Admission::Rejected(_) => panic!("must accept"),
    }
}

#[test]
fn unsecure_duplicate_key_is_rejected() {
    let mut router = Router::new();
    assert!(matches!(
        admit_connection(&mut router, false, None, Some("k".to_string()), "1".to_string()),
        Admission::Accepted(_)
    ));
    match admit_connection(&mut router, false, None, Some("k".to_string()), "2".to_string()) {
        Admission::Rejected(r) => {
            assert_eq!(r, Rejection::DuplicateKey);
            assert_eq!(r.close_reason(), "duplicate tunnel key in unsecure mode");
            assert_eq!(r.close_code(), 1);
        }
        Admission::Accepted(_) => panic!("must reject"),
    }
    assert_eq!(router.tunnel_stable_id("k"), Some("1".to_string()));
}

#[test]
fn egress_returns_to_the_session_caller_without_header() {
    let mut router = Router::new();
    router.register("c".to_string(), Some("t".to_string()), true).unwrap();
    let a = caller(1, 50000);
    let sid = router.udp_session_id("t", 443, a, 100).unwrap();
    let frame = udp_frame_bytes(443, sid, b"reply");
    let (to, payload) = egress_target(&mut router, "t", &frame, 200).expect("return path");
    assert_eq!(to, a);
    assert_eq!(payload, b"reply");
    // Unknown session, and a datagram too short for a header.
    let other = udp_frame_bytes(443, sid.wrapping_add(7), b"x");
    assert!(egress_target(&mut router, "t", &other, 200).is_none());
    assert!(egress_target(&mut router, "t", &[1, 2, 3], 200).is_none());
}

#[test]
fn transport_settings_match_relay_limits() {
    let t = relay_transport_settings();
    assert_eq!(t.max_idle_timeout_secs, 30);
    assert_eq!(t.keep_alive_interval_secs, 15);
    assert_eq!(t.max_concurrent_bidi_streams, 100);
    assert_eq!(t.max_concurrent_uni_streams, 0);
    assert_eq!(t.stream_receive_window, 1 << 20);
    assert_eq!(t.receive_window, 1 << 23);
    assert_eq!(t.datagram_receive_buffer_size, 1 << 16);
    assert_eq!(t.datagram_send_buffer_size, 1 << 17);
}

#[test]
fn certificate_name_prefers_the_first_dns_san_then_common_name() {
    let names = CertificateNames {
        san_extensions: vec![None, Some(vec![None]), Some(vec![None, Some("dns.example".to_string())])],
        common_names: vec![Some("cn.example".to_string())],
    };
    assert_eq!(certificate_name(&names), Some("dns.example".to_string()));
    let cn_only = CertificateNames {
        san_extensions: vec![Some(vec![None])],
        common_names: vec![None, Some("cn.example".to_string())],
    };
    assert_eq!(certificate_name(&cn_only), Some("cn.example".to_string()));
    let none = CertificateNames { san_extensions: vec![], common_names: vec![None] };
    assert_eq!(certificate_name(&none), None);
}

use wormhole_relay::addr::{IpAddress, SocketAddress};
use wormhole_relay::router::{split_udp_frame, udp_frame_bytes, Router, RouterError};

fn v4(a: u8, b: u8, c: u8, d: u8, port: u16) -> SocketAddress {
    SocketAddress {
        ip: IpAddress::V4(u32::from_be_bytes([a, b, c, d])),
        port,
        flowinfo: 0,
        scope_id: 0,
    }
}

const NOW: u64 = 10_000_000;

#[test]
fn new_router_is_empty() {
    let router = Router::new();
    assert_eq!(router.active_tunnels(), 0);
    assert_eq!(router.total_ingress_bytes, 0);
    assert_eq!(router.total_egress_bytes, 0);
    assert_eq!(router.total_rejected_datagrams, 0);
    assert_eq!(router.total_session_id_exhausted, 0);
}

#[test]
fn byte_counters_are_independent() {
    let mut router = Router::new();
    router.record_ingress_bytes(1024);
    router.record_egress_bytes(512);
    assert_eq!(router.total_ingress_bytes, 1024);
    assert_eq!(router.total_egress_bytes, 512);
}

#[test]
fn caller_fallback_is_time_windowed() {
    let mut router = Router::new();
    let caller = v4(127, 0, 0, 1, 50000);
    let now = NOW;

    router.record_caller_tunnel(caller, "test.local", now - 6_000);
    assert_eq!(router.tunnel_key_for_caller(caller, now), None);

    router.record_caller_tunnel(caller, "test.local", now);
    assert_eq!(
        router.tunnel_key_for_caller(caller, now),
        Some("test.local".to_string())
    );
}

#[test]
fn caller_fallback_chooses_most_recent_tunnel_for_shared_ip() {
    let mut router = Router::new();
    let now = NOW;
    let older_caller = v4(127, 0, 0, 1, 50000);
    let newer_caller = v4(127, 0, 0, 1, 50001);
    let fallback_caller = v4(127, 0, 0, 1, 60000);

    router.record_caller_tunnel(older_caller, "older.local", now - 1_000);
    router.record_caller_tunnel(newer_caller, "newer.local", now);

    assert_eq!(
        router.tunnel_key_for_caller(fallback_caller, now),
        Some("newer.local".to_string())
    );
}

#[test]
fn gc_udp_sessions_sweeps_idle_indexes() {
    let mut router = Router::new();
    let now = NOW;
    let old = now - 601_000;
    let fresh = now - 60_000;
    let old_caller = v4(127, 0, 0, 1, 50000);
    let fresh_caller = v4(127, 0, 0, 2, 50001);

    router.register("conn-old".to_string(), Some("old.local".to_string()), true).unwrap();
    router.register("conn-fresh".to_string(), Some("fresh.local".to_string()), true).unwrap();
    router.map_dcid_to_sni("old-dcid", "old.local".to_string(), old);
    router.map_dcid_to_sni("fresh-dcid", "fresh.local".to_string(), fresh);
    // Session id 1 on port 443 for each tunnel, which also indexes the caller session.
    assert_eq!(router.udp_session_id("old.local", 443, old_caller, old), Some(1));
    assert_eq!(router.udp_session_id("fresh.local", 443, fresh_caller, fresh), Some(1));
    router.record_caller_tunnel(old_caller, "old.local", old);
    router.record_caller_tunnel(fresh_caller, "fresh.local", fresh);

    router.gc_udp_sessions(600_000, now);

    assert!(router.dcid_tunnel_key("old-dcid").is_none());
    assert!(router.dcid_tunnel_key("fresh-dcid").is_some());
    assert!(router.udp_caller("old.local", 443, 1).is_none());
    assert!(router.udp_caller("fresh.local", 443, 1).is_some());
    assert!(!router.has_caller_records(old_caller.ip));
    assert!(router.has_caller_records(fresh_caller.ip));
    assert!(router.caller_session("old.local", 443, old_caller).is_none());
    assert!(router.caller_session("fresh.local", 443, fresh_caller).is_some());
}

#[test]
fn mtls_takeover_replaces_existing_and_insecure_duplicate_is_rejected() {
    let mut router = Router::new();
    let key = "test.local".to_string();

    let first = router.register("conn-1".to_string(), Some(key.clone()), true).unwrap();
    assert_eq!(first.key, key);
    assert_eq!(first.replaced, None);
    assert_eq!(router.active_tunnels(), 1);

    let second = router.register("conn-2".to_string(), Some(key.clone()), true).unwrap();
    assert_eq!(second.replaced, Some("conn-1".to_string()), "takeover should close the old connection");
    assert_eq!(router.active_tunnels(), 1);
    assert_eq!(router.tunnel_stable_id(&key), Some("conn-2".to_string()));

    router.unregister_connection(&key, "conn-1");
    assert_eq!(router.active_tunnels(), 1, "stale close must not remove takeover");

    let err = match router.register("conn-2".to_string(), Some(key.clone()), false) {
        Err(e) => e,
        Ok(_) => panic!("insecure duplicate should be rejected"),
    };
    assert_eq!(err, RouterError::AlreadyRegistered);
    assert!(err.message().contains("already registered"));
    assert_eq!(router.tunnel_stable_id(&key), Some("conn-2".to_string()));
}

#[test]
fn udp_session_ids_are_per_tunnel_and_indexed_by_caller() {
    let mut router = Router::new();
    let key = "test.local".to_string();
    router.register("conn".to_string(), Some(key.clone()), true).unwrap();
    let now = NOW;
    let caller_a = v4(127, 0, 0, 1, 50000);
    let caller_b = v4(127, 0, 0, 1, 50001);

    let first = router.udp_session_id(&key, 443, caller_a, now).expect("first session");
    let reused = router.udp_session_id(&key, 443, caller_a, now).expect("reused session");
    let second = router.udp_session_id(&key, 443, caller_b, now).expect("second session");

    assert_eq!(first, reused);
    assert_ne!(first, second);
    assert_eq!(router.caller_session(&key, 443, caller_a).expect("caller index"), first);
    assert_eq!(router.udp_caller(&key, 443, first).expect("return path"), caller_a);
}

#[test]
fn register_without_sni_keys_by_stable_id() {
    let mut router = Router::new();
    let reg = router.register("4242".to_string(), None, false).unwrap();
    assert_eq!(reg.key, "4242");
    assert_eq!(router.tunnel_stable_id("4242"), Some("4242".to_string()));
}

#[test]
fn unregister_removes_tunnel_and_its_udp_state() {
    let mut router = Router::new();
    let a = v4(10, 0, 0, 1, 1000);
    router.register("c1".to_string(), Some("k".to_string()), true).unwrap();
    router.map_dcid_to_sni("d1", "k".to_string(), NOW);
    let sid = router.udp_session_id("k", 443, a, NOW).unwrap();
    router.record_caller_tunnel(a, "k", NOW);
    router.unregister("k");
    assert_eq!(router.active_tunnels(), 0);
    assert!(router.dcid_tunnel_key("d1").is_none());
    assert!(router.udp_caller("k", 443, sid).is_none());
    assert!(router.caller_session("k", 443, a).is_none());
    assert!(!router.has_caller_records(a.ip));
    // Unregistering again, or an unknown key, changes nothing.
    router.unregister("k");
    router.unregister_connection("missing", "c1");
    assert_eq!(router.active_tunnels(), 0);
}

#[test]
fn takeover_drops_udp_state_of_the_previous_tunnel() {
    let mut router = Router::new();
    let a = v4(10, 0, 0, 1, 1000);
    router.register("c1".to_string(), Some("k".to_string()), true).unwrap();
    router.map_dcid_to_sni("d1", "k".to_string(), NOW);
    let sid = router.udp_session_id("k", 443, a, NOW).unwrap();
    router.register("c2".to_string(), Some("k".to_string()), true).unwrap();
    assert!(router.dcid_tunnel_key("d1").is_none());
    assert!(router.udp_caller("k", 443, sid).is_none());
    // The new tunnel's counter starts over.
    assert_eq!(router.udp_session_id("k", 443, a, NOW), Some(1));
}

#[test]
fn route_udp_ingress_by_dcid_records_caller_and_frames_datagram() {
    let mut router = Router::new();
    let a = v4(192, 168, 1, 9, 40000);
    router.register("conn-9".to_string(), Some("svc".to_string()), true).unwrap();
    router.map_dcid_to_sni("abcd", "svc".to_string(), NOW - 10);
    let fwd = router.route_udp_ingress("abcd", 443, b"hello", a, NOW).expect("forwarded");
    assert_eq!(fwd.stable_id, "conn-9");
    assert_eq!(fwd.frame, vec![0x01, 0xBB, 0x00, 0x01, b'h', b'e', b'l', b'l', b'o']);
    router.record_udp_forward(true, 5);
    assert_eq!(router.total_ingress_bytes, 9);
    // Another port of the same IP now reaches the tunnel through the fallback.
    let b = v4(192, 168, 1, 9, 40001);
    let fwd = router.route_udp_ingress("unknown", 443, b"x", b, NOW + 1_000).expect("fallback");
    assert_eq!(fwd.frame[..4], [0x01, 0xBB, 0x00, 0x02]);
    assert_eq!(router.total_rejected_datagrams, 0);
}

#[test]
fn route_udp_ingress_rejects_unknown_and_unregistered_tunnels() {
    let mut router = Router::new();
    let a = v4(192, 168, 1, 9, 40000);
    assert!(router.route_udp_ingress("nope", 443, b"x", a, NOW).is_none());
    assert_eq!(router.total_rejected_datagrams, 1);
    router.map_dcid_to_sni("d", "gone".to_string(), NOW);
    assert!(router.route_udp_ingress("d", 443, b"x", a, NOW).is_none());
    assert_eq!(router.total_rejected_datagrams, 2);
    router.record_udp_forward(false, 1);
    assert_eq!(router.total_rejected_datagrams, 3);
}

#[test]
fn route_ingress_counts_rejections() {
    let mut router = Router::new();
    router.register("s".to_string(), Some("web".to_string()), true).unwrap();
    assert_eq!(router.route_ingress("web"), Some("s".to_string()));
    assert_eq!(router.total_rejected_datagrams, 0);
    assert_eq!(router.route_ingress("other"), None);
    assert_eq!(router.total_rejected_datagrams, 1);
}

#[test]
fn udp_return_addr_finds_the_session_caller() {
    let mut router = Router::new();
    let a = v4(8, 8, 8, 8, 53);
    router.register("s".to_string(), Some("k".to_string()), true).unwrap();
    let sid = router.udp_session_id("k", 443, a, NOW).unwrap();
    assert_eq!(router.udp_return_addr("k", 443, sid, NOW + 5), Some(a));
    assert_eq!(router.udp_return_addr("k", 444, sid, NOW + 5), None);
    // The lookup refreshed the session: a collection at NOW + 10 with 6 ms idle keeps it.
    router.gc_udp_sessions(6, NOW + 10);
    assert_eq!(router.caller_session("k", 443, a), Some(sid));
}

#[test]
fn session_ids_skip_taken_ids_and_wrap_past_zero() {
    let mut router = Router::new();
    router.register("s".to_string(), Some("k".to_string()), true).unwrap();
    let mut seen = Vec::new();
    for port in 0..5u16 {
        let sid = router.udp_session_id("k", 443, v4(1, 1, 1, 1, port), NOW).unwrap();
        assert!(sid != 0);
        assert!(!seen.contains(&sid));
        seen.push(sid);
    }
    assert_eq!(seen, vec![1, 2, 3, 4, 5]);
    // Another port of the same tunnel shares the counter.
    assert_eq!(router.udp_session_id("k", 8443, v4(1, 1, 1, 2, 9), NOW), Some(6));
}

#[test]
fn frames_split_back_into_header_and_payload() {
    let frame = udp_frame_bytes(0xABCD, 0x0102, b"data");
    assert_eq!(frame, vec![0xAB, 0xCD, 0x01, 0x02, b'd', b'a', b't', b'a']);
    let (port, sid, payload) = split_udp_frame(&frame).unwrap();
    assert_eq!((port, sid, payload), (0xABCD, 0x0102, &b"data"[..]));
    assert!(split_udp_frame(&[1, 2, 3]).is_none());
    assert_eq!(split_udp_frame(&[0, 1, 0, 2]).unwrap().2, &[] as &[u8]);
}

#[test]
fn caller_fallback_breaks_ties_by_the_greater_tunnel_key() {
    let mut router = Router::new();
    router.record_caller_tunnel(v4(10, 1, 1, 1, 1), "beta.local", NOW);
    router.record_caller_tunnel(v4(10, 1, 1, 1, 2), "alpha.local", NOW);
    router.record_caller_tunnel(v4(10, 1, 1, 1, 3), "aardvark.local", NOW - 1);
    assert_eq!(
        router.tunnel_key_for_caller(v4(10, 1, 1, 1, 9), NOW),
        Some("beta.local".to_string())
    );
}

#[test]
fn fallback_drops_only_expired_records() {
    let mut router = Router::new();
    let ip_caller = v4(10, 2, 2, 2, 7);
    router.record_caller_tunnel(ip_caller, "old.local", NOW - 5_001);
    router.record_caller_tunnel(v4(10, 2, 2, 2, 8), "edge.local", NOW - 5_000);
    assert_eq!(router.tunnel_key_for_caller(ip_caller, NOW), Some("edge.local".to_string()));
    assert!(router.has_caller_records(ip_caller.ip));
    assert_eq!(router.tunnel_key_for_caller(ip_caller, NOW + 1), None);
    assert!(!router.has_caller_records(ip_caller.ip));
}

#[test]
fn routed_datagram_reply_returns_to_its_caller() {
    let mut router = Router::new();
    let a = v4(203, 0, 113, 5, 5353);
    router.register("c".to_string(), Some("svc".to_string()), true).unwrap();
    router.map_dcid_to_sni("feed", "svc".to_string(), NOW);
    let fwd = router.route_udp_ingress("feed", 4433, b"ping", a, NOW).unwrap();
    let (port, sid, payload) = split_udp_frame(&fwd.frame).unwrap();
    assert_eq!((port, payload), (4433, &b"ping"[..]));
    assert_eq!(router.udp_return_addr("svc", port, sid, NOW + 1), Some(a));
}

#[test]
fn default_router_is_empty() {
    let router = Router::default();
    assert_eq!(router.active_tunnels(), 0);
}

#[test]
fn return_path_persists_through_replies_collection_and_other_sessions() {
    let mut router = Router::new();
    let a = v4(198, 51, 100, 1, 4000);
    let b = v4(198, 51, 100, 2, 4001);
    router.register("c".to_string(), Some("svc".to_string()), true).unwrap();
    let sid = router.udp_session_id("svc", 443, a, NOW).unwrap();
    assert_eq!(router.udp_return_addr("svc", 443, sid, NOW + 1), Some(a));
    assert_eq!(router.udp_return_addr("svc", 443, sid, NOW + 2), Some(a));
    router.gc_udp_sessions(10, NOW + 5);
    assert_eq!(router.udp_caller("svc", 443, sid), Some(a));
    // A new caller on the same port gets another id and leaves the path alone.
    let other = router.udp_session_id("svc", 443, b, NOW + 6).unwrap();
    assert_ne!(other, sid);
    assert_eq!(router.udp_return_addr("svc", 443, sid, NOW + 7), Some(a));
}

#[test]
fn takeover_and_closes_keep_one_tunnel_per_key() {
    let mut router = Router::new();
    router.register("1".to_string(), Some("k".to_string()), true).unwrap();
    router.register("2".to_string(), Some("k".to_string()), true).unwrap();
    router.register("3".to_string(), Some("j".to_string()), true).unwrap();
    assert_eq!(router.active_tunnels(), 2);
    router.unregister_connection("k", "1");
    assert_eq!(router.tunnel_stable_id("k"), Some("2".to_string()));
    router.unregister_connection("k", "2");
    assert_eq!(router.tunnel_stable_id("k"), None);
    assert_eq!(router.tunnel_stable_id("j"), Some("3".to_string()));
    assert_eq!(router.active_tunnels(), 1);
}

#[test]
fn sessions_are_kept_per_port() {
    let mut router = Router::new();
    let a = v4(192, 0, 2, 1, 1111);
    router.register("c".to_string(), Some("k".to_string()), true).unwrap();
    let on_443 = router.udp_session_id("k", 443, a, NOW).unwrap();
    let on_8443 = router.udp_session_id("k", 8443, a, NOW).unwrap();
    assert_ne!(on_443, on_8443);
    assert_eq!(router.caller_session("k", 443, a), Some(on_443));
    assert_eq!(router.caller_session("k", 8443, a), Some(on_8443));
    assert_eq!(router.udp_return_addr("k", 443, on_443, NOW + 1), Some(a));
    assert_eq!(router.udp_return_addr("k", 8443, on_8443, NOW + 1), Some(a));
}

#[test]
fn a_caller_never_takes_over_another_callers_return_path() {
    let mut router = Router::new();
    router.register("c".to_string(), Some("k".to_string()), true).unwrap();
    let a = v4(192, 0, 2, 1, 1);
    // A holds id 1 on port 1; ids 2..=65535 are then handed out on port 2.
    assert_eq!(router.udp_session_id("k", 1, a, NOW), Some(1));
    for i in 0..65534u32 {
        let caller = SocketAddress { ip: IpAddress::V4(0x0a00_0000 | i), port: 9, flowinfo: 0, scope_id: 0 };
        assert_eq!(router.udp_session_id("k", 2, caller, NOW), Some((i + 2) as u16));
    }
    // The counter wraps past 0 and gives id 1 on port 2 to B.
    let b = v4(192, 0, 2, 2, 2);
    assert_eq!(router.udp_session_id("k", 2, b, NOW), Some(1));
    // A asks on port 2: every id is held there, so A gets none, and the
    // return path of B is left alone.
    assert_eq!(router.udp_session_id("k", 2, a, NOW), None);
    assert_eq!(router.udp_return_addr("k", 2, 1, NOW), Some(b));
    assert_eq!(router.udp_return_addr("k", 1, 1, NOW), Some(a));
    assert_eq!(router.total_session_id_exhausted, 1);
}

#[test]
fn ipv6_callers_differing_in_scope_get_separate_sessions() {
    let mut router = Router::new();
    router.register("c".to_string(), Some("k".to_string()), true).unwrap();
    let link = SocketAddress { ip: IpAddress::V6(0xfe80 << 112 | 1), port: 5000, flowinfo: 0, scope_id: 2 };
    let other = SocketAddress { scope_id: 3, ..link };
    let s1 = router.udp_session_id("k", 443, link, NOW).unwrap();
    let s2 = router.udp_session_id("k", 443, other, NOW).unwrap();
    assert_ne!(s1, s2);
    assert_eq!(router.udp_return_addr("k", 443, s1, NOW), Some(link));
    assert_eq!(router.udp_return_addr("k", 443, s2, NOW), Some(other));
}

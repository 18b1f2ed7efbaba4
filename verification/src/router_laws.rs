//! Properties of the routing table that span operations.

use vstd::prelude::*;

use crate::addr::SocketAddress;
use crate::addr::{addr_lt, ip_lt};
use crate::router::{
    distinct_keys, filter_recs, fresh, fresh_pred, lemma_filter_recs_distinct,
    lemma_filter_recs_sub, other_tunnel_pred, CallerRec, UDP_FALLBACK_WINDOW_MS,
};
use crate::routing_model::{
    best_index, first_free_step, lemma_best_index_bounds, parse_udp_frame, rec_gt,
    session_free, sid_after, udp_frame, RouterView,
};
use crate::text::chars_lt;

verus! {

pub proof fn lemma_first_free_step(
    uc: Map<(Seq<char>, u16, u16), (SocketAddress, u64)>,
    key: Seq<char>,
    port: u16,
    start: u16,
    from: int,
)
    ensures
        first_free_step(uc, key, port, start, from) == 0x1_0000 || (1 <= from <= first_free_step(
            uc,
            key,
            port,
            start,
            from,
        ) <= 0xffff && session_free(
            uc,
            key,
            port,
            sid_after(start, first_free_step(uc, key, port, start, from)),
        )),
    decreases 0x1_0000 - from,
{
    if 1 <= from <= 0xffff && !session_free(uc, key, port, sid_after(start, from)) {
        lemma_first_free_step(uc, key, port, start, from + 1);
    }
}

pub proof fn lemma_best_index_latest(s: Seq<CallerRec>)
    requires
        s.len() > 0,
    ensures
        forall|i: int| 0 <= i < s.len() ==> (#[trigger] s[i]).2 <= s[best_index(s)].2,
    decreases s.len(),
{
    lemma_best_index_bounds(s);
    if s.len() > 1 {
        let t = s.drop_last();
        lemma_best_index_latest(t);
        lemma_best_index_bounds(t);
        let b = best_index(t);
        assert forall|i: int| 0 <= i < s.len() implies (#[trigger] s[i]).2 <= s[best_index(s)].2 by {
            if i < s.len() - 1 {
                assert(s[i] == t[i]);
            }
        }
    }
}

/// Registration hands the key to the new connection with a fresh session
/// counter and leaves every other key's tunnel as it was; it adds one tunnel
/// when the key was free and keeps the count on a takeover.
pub proof fn law_register_installs_tunnel(v: RouterView, stable_id: Seq<char>, key: Seq<char>)
    requires
        v.wf(),
    ensures
        v.registered(stable_id, key).tunnels.contains_key(key),
        v.registered(stable_id, key).tunnels[key] == (stable_id, 0u16),
        forall|k: Seq<char>|
            k != key ==> (#[trigger] v.registered(stable_id, key).tunnels.contains_key(k)
                == v.tunnels.contains_key(k)) && v.registered(stable_id, key).tunnels[k]
                == v.tunnels[k],
        v.tunnels.contains_key(key) ==> v.registered(stable_id, key).tunnels.len()
            == v.tunnels.len(),
        !v.tunnels.contains_key(key) ==> v.registered(stable_id, key).tunnels.len()
            == v.tunnels.len() + 1,
{
    let w = v.registered(stable_id, key);
    assert(w.tunnels == v.tunnels.insert(key, (stable_id, 0u16)));
    if v.tunnels.contains_key(key) {
        assert(v.tunnels.dom().insert(key) =~= v.tunnels.dom());
    }
}

/// After an mTLS takeover, the close of the connection that was replaced does
/// not remove the tunnel that replaced it.
pub proof fn law_takeover_survives_stale_close(
    v: RouterView,
    old_id: Seq<char>,
    new_id: Seq<char>,
    key: Seq<char>,
)
    requires
        v.wf(),
        old_id != new_id,
    ensures
        ({
            let taken_over = v.registered(old_id, key).registered(new_id, key);
            &&& taken_over.tunnels[key].0 == new_id
            &&& taken_over.unregistered(key, Some(old_id)) == taken_over
        }),
{
}

/// Once a tunnel is unregistered, nothing in the table leads to it: no DCID
/// mapping, return path, caller record or caller session names its key.
pub proof fn law_unregister_clears_tunnel_state(
    v: RouterView,
    key: Seq<char>,
    expected: Option<Seq<char>>,
)
    requires
        v.wf(),
        v.removes(key, expected),
    ensures
        ({
            let w = v.unregistered(key, expected);
            &&& !w.tunnels.contains_key(key)
            &&& forall|d: Seq<char>| #[trigger] w.dcids.contains_key(d) ==> w.dcids[d].0 != key
            &&& forall|k: (Seq<char>, u16, u16)| #[trigger] w.udp_callers.contains_key(k) ==> k.0 != key
            &&& forall|k: (Seq<char>, u16, SocketAddress)| #[trigger] w.sessions.contains_key(k) ==> k.0 != key
            &&& forall|ip: crate::addr::IpAddress, i: int|
                #![trigger w.callers[ip][i]]
                w.callers.contains_key(ip) && 0 <= i < w.callers[ip].len() ==> w.callers[ip][i].0
                    != key
        }),
{
    let w = v.unregistered(key, expected);
    assert forall|ip: crate::addr::IpAddress, i: int|
        w.callers.contains_key(ip) && 0 <= i < w.callers[ip].len() implies #[trigger] w.callers[ip][i].0
        != key by {
        lemma_filter_recs_sub(v.callers[ip], other_tunnel_pred(key));
    }
}

/// A caller keeps its session: asking again for the same tunnel, port and
/// caller gives the id handed out before.
pub proof fn law_session_is_reused(
    v: RouterView,
    key: Seq<char>,
    port: u16,
    caller: SocketAddress,
    now: u64,
    later: u64,
)
    requires
        v.wf(),
        v.tunnels.contains_key(key),
        v.session(key, port, caller, now).1 is Some,
    ensures
        v.session(key, port, caller, now).0.session(key, port, caller, later).1 == v.session(
            key,
            port,
            caller,
            now,
        ).1,
{
}

/// Two different callers given session ids on the same tunnel and port get
/// different ids, whether or not they held a session before, and neither
/// gets id 0.
pub proof fn law_callers_get_distinct_sessions(
    v: RouterView,
    key: Seq<char>,
    port: u16,
    a: SocketAddress,
    b: SocketAddress,
    now_a: u64,
    now_b: u64,
)
    requires
        v.wf(),
        v.tunnels.contains_key(key),
        a != b,
        v.session(key, port, a, now_a).1 is Some,
        v.session(key, port, a, now_a).0.session(key, port, b, now_b).1 is Some,
    ensures
        ({
            let (v1, sa) = v.session(key, port, a, now_a);
            let sb = v1.session(key, port, b, now_b).1;
            &&& sa != sb
            &&& sa != Some(0u16)
            &&& sb != Some(0u16)
        }),
{
    let (v1, sa) = v.session(key, port, a, now_a);
    crate::routing_model::lemma_session_wf(v, key, port, a, now_a);
    if !v.sessions.contains_key((key, port, a)) {
        lemma_first_free_step(v.udp_callers, key, port, v.tunnels[key].1, 1);
    }
    assert(v1.tunnels.contains_key(key));
    let (v2, sb) = v1.session(key, port, b, now_b);
    crate::routing_model::lemma_session_wf(v1, key, port, b, now_b);
    if !v1.sessions.contains_key((key, port, b)) {
        lemma_first_free_step(v1.udp_callers, key, port, v1.tunnels[key].1, 1);
    }
    assert(v2.sessions[(key, port, a)] == v1.sessions[(key, port, a)]);
    assert(v2.sessions.contains_key((key, port, a)));
    assert(v2.sessions.contains_key((key, port, b)));
    law_session_ids_are_distinct_per_port(v2, key, port, a, b);
}

/// On one tunnel and port, no two callers hold the same session id, and no
/// caller holds id 0.
pub proof fn law_session_ids_are_distinct_per_port(
    v: RouterView,
    key: Seq<char>,
    port: u16,
    a: SocketAddress,
    b: SocketAddress,
)
    requires
        v.wf(),
        a != b,
        v.sessions.contains_key((key, port, a)),
        v.sessions.contains_key((key, port, b)),
    ensures
        v.sessions[(key, port, a)].0 != v.sessions[(key, port, b)].0,
        v.sessions[(key, port, a)].0 != 0,
{
    assert(v.udp_callers[(key, port, v.sessions[(key, port, a)].0)].0 == a);
    assert(v.udp_callers[(key, port, v.sessions[(key, port, b)].0)].0 == b);
}

/// A session's return path leads back to its caller: after a caller is given
/// a session id, a reply on that tunnel, port and id is sent to that caller.
pub proof fn law_return_path_reaches_caller(
    v: RouterView,
    key: Seq<char>,
    port: u16,
    caller: SocketAddress,
    now: u64,
    later: u64,
)
    requires
        v.wf(),
        v.tunnels.contains_key(key),
        v.session(key, port, caller, now).1 is Some,
    ensures
        ({
            let (v1, sid) = v.session(key, port, caller, now);
            &&& v1.sessions[(key, port, caller)].0 == sid->Some_0
            &&& v1.udp_callers[(key, port, sid->Some_0)].0 == caller
            &&& v1.return_path(key, port, sid->Some_0, later).1 == Some(caller)
        }),
{
}

/// A routed datagram's frame carries the ingress port and the caller's
/// session id ahead of the datagram, and a reply on that port and id is
/// returned to the datagram's caller.
pub proof fn law_routed_datagram_reply_reaches_caller(
    v: RouterView,
    dcid: Seq<char>,
    port: u16,
    payload: Seq<u8>,
    caller: SocketAddress,
    now: u64,
    later: u64,
)
    requires
        v.wf(),
        v.route_udp(dcid, port, payload, caller, now).1 is Some,
    ensures
        ({
            let (v1, key) = v.resolve_tunnel(dcid, caller, now);
            let (v2, fwd) = v.route_udp(dcid, port, payload, caller, now);
            let frame = fwd->Some_0.1;
            &&& parse_udp_frame(frame) matches Some((p, sid, data)) && p == port && data == payload
                && v2.return_path(key->Some_0, port, sid, later).1 == Some(caller)
        }),
{
    let (v1, key) = v.resolve_tunnel(dcid, caller, now);
    let k = key->Some_0;
    let (v2, sid) = v1.session(k, port, caller, now);
    let s = sid->Some_0;
    law_udp_frame_roundtrip(port, s, payload);
}

/// The frame header round-trips: splitting a frame gives back the port,
/// session id and datagram it was built from.
pub proof fn law_udp_frame_roundtrip(port: u16, sid: u16, payload: Seq<u8>)
    ensures
        parse_udp_frame(udp_frame(port, sid, payload)) == Some((port, sid, payload)),
{
    let f = udp_frame(port, sid, payload);
    assert(f.subrange(4, f.len() as int) =~= payload);
}

/// Every frame of at least four bytes is the frame of what it splits into.
pub proof fn law_udp_frame_split_rebuilds(data: Seq<u8>)
    requires
        data.len() >= 4,
    ensures
        parse_udp_frame(data) matches Some((p, s, d)) && udp_frame(p, s, d) == data,
{
    let (p, s, d) = parse_udp_frame(data)->Some_0;
    assert(udp_frame(p, s, d) =~= data);
}

/// A caller IP whose recorded tunnels were all last used longer ago than the
/// fallback window gets no tunnel, and its records are dropped.
pub proof fn law_fallback_expires(v: RouterView, caller: SocketAddress, now: u64)
    requires
        v.wf(),
        v.callers.contains_key(caller.ip),
        forall|i: int|
            0 <= i < v.callers[caller.ip].len() ==> !fresh(
                (#[trigger] v.callers[caller.ip][i]).2,
                now,
                UDP_FALLBACK_WINDOW_MS,
            ),
    ensures
        v.caller_fallback(caller, now) == (RouterView { callers: v.callers.remove(caller.ip), ..v }, None::<Seq<char>>),
{
    let s = v.callers[caller.ip];
    let p = fresh_pred(now, UDP_FALLBACK_WINDOW_MS);
    lemma_filter_recs_sub(s, p);
    let f = filter_recs(s, p);
    if f.len() > 0 {
        assert(s.contains(f[0]));
    }
}

/// The caller fallback answers with a tunnel that the caller's IP used within
/// the window, and with the most recently used one.
pub proof fn law_fallback_prefers_most_recent(v: RouterView, caller: SocketAddress, now: u64)
    requires
        v.wf(),
        v.caller_fallback(caller, now).1 is Some,
    ensures
        ({
            let s = v.callers[caller.ip];
            let key = v.caller_fallback(caller, now).1->Some_0;
            exists|i: int|
                0 <= i < s.len() && (#[trigger] s[i]).0 == key && fresh(
                    s[i].2,
                    now,
                    UDP_FALLBACK_WINDOW_MS,
                ) && forall|j: int|
                    0 <= j < s.len() && fresh(#[trigger] s[j].2, now, UDP_FALLBACK_WINDOW_MS)
                        ==> s[j].2 <= s[i].2
        }),
{
    let s = v.callers[caller.ip];
    let p = fresh_pred(now, UDP_FALLBACK_WINDOW_MS);
    let f = filter_recs(s, p);
    lemma_filter_recs_sub(s, p);
    lemma_filter_recs_complete(s, p);
    lemma_best_index_bounds(f);
    lemma_best_index_latest(f);
    let b = best_index(f);
    assert(s.contains(f[b]));
    let i = choose|i: int| 0 <= i < s.len() && s[i] == f[b];
    assert forall|j: int|
        0 <= j < s.len() && fresh(#[trigger] s[j].2, now, UDP_FALLBACK_WINDOW_MS) implies s[j].2
        <= s[i].2 by {
        assert(p(s[j]));
        assert(f.contains(s[j]));
        let k = choose|k: int| 0 <= k < f.len() && f[k] == s[j];
    }
}

/// A record that passes the filter is kept by it.
pub proof fn lemma_filter_recs_complete(s: Seq<CallerRec>, p: spec_fn(CallerRec) -> bool)
    ensures
        forall|i: int| 0 <= i < s.len() && p(#[trigger] s[i]) ==> filter_recs(s, p).contains(s[i]),
    decreases s.len(),
{
    if s.len() > 0 {
        let t = s.drop_last();
        lemma_filter_recs_complete(t, p);
        assert forall|i: int| 0 <= i < s.len() && p(#[trigger] s[i]) implies filter_recs(s, p).contains(
            s[i],
        ) by {
            let f = filter_recs(s, p);
            if i < s.len() - 1 {
                assert(s[i] == t[i]);
                let r = filter_recs(t, p);
                let k = choose|k: int| 0 <= k < r.len() && r[k] == t[i];
                if p(s.last()) {
                    assert(f[k] == r[k]);
                }
            } else {
                assert(f[f.len() - 1] == s.last());
            }
        }
    }
}

/// A caller that has just used a tunnel is routed by the fallback within the
/// window: the fallback for any address with the same IP answers.
pub proof fn law_recorded_caller_has_fallback(
    v: RouterView,
    caller: SocketAddress,
    key: Seq<char>,
    now: u64,
    other: SocketAddress,
)
    requires
        v.wf(),
        other.ip == caller.ip,
    ensures
        v.with_caller(caller, key, now).caller_fallback(other, now).1 is Some,
{
    let w = v.with_caller(caller, key, now);
    let s = w.callers[caller.ip];
    let p = fresh_pred(now, UDP_FALLBACK_WINDOW_MS);
    lemma_filter_recs_complete(s, p);
    let rec: CallerRec = (key, caller, now);
    if !v.callers.contains_key(caller.ip) {
        assert(s[0] == rec);
    } else if exists|i: int|
        0 <= i < v.callers[caller.ip].len() && (#[trigger] v.callers[caller.ip][i]).0 == key {
        let i = choose|i: int|
            0 <= i < v.callers[caller.ip].len() && (#[trigger] v.callers[caller.ip][i]).0 == key;
        assert(s[i] == rec);
    } else {
        assert(s[s.len() - 1] == rec);
    }
    assert(filter_recs(s, p).len() > 0);
}

/// Garbage collection keeps exactly the entries used within `max_idle`: every
/// DCID mapping, return path and session left is fresh, every fresh one is
/// left, and likewise for the records of the caller index.
pub proof fn law_gc_keeps_exactly_fresh(v: RouterView, now: u64, max_idle: u64)
    ensures
        ({
            let w = v.collected(now, max_idle);
            &&& forall|d: Seq<char>| #[trigger]
                w.dcids.contains_key(d) <==> v.dcids.contains_key(d) && fresh(
                    v.dcids[d].1,
                    now,
                    max_idle,
                )
            &&& forall|k: (Seq<char>, u16, u16)| #[trigger]
                w.udp_callers.contains_key(k) <==> v.udp_callers.contains_key(k) && fresh(
                    v.udp_callers[k].1,
                    now,
                    max_idle,
                )
            &&& forall|k: (Seq<char>, u16, SocketAddress)| #[trigger]
                w.sessions.contains_key(k) <==> v.sessions.contains_key(k) && fresh(
                    v.sessions[k].1,
                    now,
                    max_idle,
                )
            &&& forall|ip: crate::addr::IpAddress, i: int|
                #![trigger w.callers[ip][i]]
                w.callers.contains_key(ip) && 0 <= i < w.callers[ip].len() ==> fresh(
                    w.callers[ip][i].2,
                    now,
                    max_idle,
                ) && v.callers[ip].contains(w.callers[ip][i])
            &&& forall|ip: crate::addr::IpAddress, i: int|
                #![trigger v.callers[ip][i]]
                v.callers.contains_key(ip) && 0 <= i < v.callers[ip].len() && fresh(
                    v.callers[ip][i].2,
                    now,
                    max_idle,
                ) ==> w.callers.contains_key(ip) && w.callers[ip].contains(v.callers[ip][i])
        }),
{
    let w = v.collected(now, max_idle);
    let p = fresh_pred(now, max_idle);
    assert forall|ip: crate::addr::IpAddress, i: int|
        w.callers.contains_key(ip) && 0 <= i < w.callers[ip].len() implies fresh(
        #[trigger] w.callers[ip][i].2,
        now,
        max_idle,
    ) && v.callers[ip].contains(w.callers[ip][i]) by {
        lemma_filter_recs_sub(v.callers[ip], p);
        assert(p(w.callers[ip][i]));
    }
    assert forall|ip: crate::addr::IpAddress, i: int|
        v.callers.contains_key(ip) && 0 <= i < v.callers[ip].len() && fresh(
            #[trigger] v.callers[ip][i].2,
            now,
            max_idle,
        ) implies w.callers.contains_key(ip) && w.callers[ip].contains(v.callers[ip][i]) by {
        lemma_filter_recs_complete(v.callers[ip], p);
        assert(p(v.callers[ip][i]));
        assert(filter_recs(v.callers[ip], p).contains(v.callers[ip][i]));
    }
}

/// A DCID leads to the tunnel it was last mapped to: after mapping it, a
/// datagram carrying it resolves to that tunnel key.
pub proof fn law_dcid_mapping_is_read_back(
    v: RouterView,
    dcid: Seq<char>,
    key: Seq<char>,
    mapped_at: u64,
    caller: SocketAddress,
    now: u64,
)
    ensures
        (RouterView { dcids: v.dcids.insert(dcid, (key, mapped_at)), ..v }).resolve_tunnel(
            dcid,
            caller,
            now,
        ).1 == Some(key),
{
}

/// A connection that registers a key and later closes leaves the key free.
pub proof fn law_register_then_close_frees_key(v: RouterView, stable_id: Seq<char>, key: Seq<char>)
    requires
        v.wf(),
    ensures
        !v.registered(stable_id, key).unregistered(key, Some(stable_id)).tunnels.contains_key(key),
        v.registered(stable_id, key).unregistered(key, Some(stable_id)).tunnels.len()
            == v.tunnels.remove(key).len(),
{
    let w = v.registered(stable_id, key);
    assert(w.unregistered(key, Some(stable_id)).tunnels =~= v.tunnels.remove(key));
}


/// The inverse table always maps exactly the stable id of each registered
/// tunnel's connection to the tunnel's key: it does so for an empty table, and
/// keeps doing so through unregistering, through registering a connection that
/// holds no key yet, and through handing out session ids and routing datagrams.
pub proof fn law_inverse_table_tracks_tunnels(
    v: RouterView,
    stable_id: Seq<char>,
    key: Seq<char>,
    expected: Option<Seq<char>>,
    dcid: Seq<char>,
    port: u16,
    payload: Seq<u8>,
    caller: SocketAddress,
    now: u64,
)
    requires
        v.wf(),
    ensures
        v.tunnels.dom().is_empty() && v.inverse.dom().is_empty() ==> v.inverse_tracks_tunnels(),
        v.inverse_tracks_tunnels() ==> v.unregistered(key, expected).inverse_tracks_tunnels(),
        v.inverse_tracks_tunnels() && !v.inverse.contains_key(stable_id) ==> v.registered(
            stable_id,
            key,
        ).inverse_tracks_tunnels(),
        v.inverse_tracks_tunnels() && v.tunnels.contains_key(key) ==> v.session(
            key,
            port,
            caller,
            now,
        ).0.inverse_tracks_tunnels(),
        v.inverse_tracks_tunnels() ==> v.route_udp(
            dcid,
            port,
            payload,
            caller,
            now,
        ).0.inverse_tracks_tunnels(),
{
    if v.inverse_tracks_tunnels() {
        lemma_unregistered_tracks(v, key, expected);
        if !v.inverse.contains_key(stable_id) {
            lemma_registered_tracks(v, stable_id, key);
        }
        if v.tunnels.contains_key(key) {
            lemma_session_tracks(v, key, port, caller, now);
        }
        let (v1, found) = v.resolve_tunnel(dcid, caller, now);
        assert(v1.tunnels == v.tunnels && v1.inverse == v.inverse);
        assert(v1.inverse_tracks_tunnels());
        if let Some(k) = found {
            if v1.tunnels.contains_key(k) {
                lemma_session_tracks(v1, k, port, caller, now);
            }
        }
    }
}

proof fn lemma_unregistered_tracks(v: RouterView, key: Seq<char>, expected: Option<Seq<char>>)
    requires
        v.inverse_tracks_tunnels(),
    ensures
        v.unregistered(key, expected).inverse_tracks_tunnels(),
{
    if v.removes(key, expected) {
        let w = v.unregistered(key, expected);
        let id0 = v.tunnels[key].0;
        assert(w.tunnels == v.tunnels.remove(key));
        assert(w.inverse == v.inverse.remove(id0));
        assert forall|k: Seq<char>| #[trigger] w.tunnels.contains_key(k) implies w.inverse.contains_key(
            w.tunnels[k].0,
        ) && w.inverse[w.tunnels[k].0] == k by {
            assert(v.tunnels.contains_key(k) && k != key);
            assert(v.inverse[v.tunnels[k].0] == k);
            assert(v.tunnels[k].0 != id0);
        }
        assert forall|id: Seq<char>| #[trigger] w.inverse.contains_key(id) implies w.tunnels.contains_key(
            w.inverse[id],
        ) && w.tunnels[w.inverse[id]].0 == id by {
            assert(v.inverse.contains_key(id) && id != id0);
            assert(v.inverse[id] != key);
        }
    }
}

proof fn lemma_registered_tracks(v: RouterView, stable_id: Seq<char>, key: Seq<char>)
    requires
        v.inverse_tracks_tunnels(),
        !v.inverse.contains_key(stable_id),
    ensures
        v.registered(stable_id, key).inverse_tracks_tunnels(),
{
    let w = v.registered(stable_id, key);
    let taken = v.tunnels.contains_key(key);
    let base_inverse = if taken {
        v.inverse.remove(v.tunnels[key].0)
    } else {
        v.inverse
    };
    assert(w.tunnels == v.tunnels.insert(key, (stable_id, 0u16)));
    assert(w.inverse == base_inverse.insert(stable_id, key));
    assert forall|k: Seq<char>| #[trigger] w.tunnels.contains_key(k) implies w.inverse.contains_key(
        w.tunnels[k].0,
    ) && w.inverse[w.tunnels[k].0] == k by {
        if k != key {
            assert(v.tunnels.contains_key(k));
            assert(v.inverse[v.tunnels[k].0] == k);
            assert(v.tunnels[k].0 != stable_id);
            if taken {
                assert(v.inverse[v.tunnels[key].0] == key);
                assert(v.tunnels[k].0 != v.tunnels[key].0);
            }
        }
    }
    assert forall|id: Seq<char>| #[trigger] w.inverse.contains_key(id) implies w.tunnels.contains_key(
        w.inverse[id],
    ) && w.tunnels[w.inverse[id]].0 == id by {
        if id != stable_id {
            assert(v.inverse.contains_key(id));
            if taken {
                assert(id != v.tunnels[key].0);
            }
            assert(v.tunnels[v.inverse[id]].0 == id);
            assert(v.inverse[id] != key);
        }
    }
}

proof fn lemma_session_tracks(v: RouterView, key: Seq<char>, port: u16, caller: SocketAddress, now: u64)
    requires
        v.inverse_tracks_tunnels(),
        v.tunnels.contains_key(key),
    ensures
        v.session(key, port, caller, now).0.inverse_tracks_tunnels(),
{
    let w = v.session(key, port, caller, now).0;
    assert(w.inverse == v.inverse);
    assert(w.tunnels.dom() =~= v.tunnels.dom());
    assert forall|k: Seq<char>| #[trigger] w.tunnels.contains_key(k) implies w.tunnels[k].0
        == v.tunnels[k].0 by {
    }
    assert forall|k: Seq<char>| #[trigger] w.tunnels.contains_key(k) implies w.inverse.contains_key(
        w.tunnels[k].0,
    ) && w.inverse[w.tunnels[k].0] == k by {
        assert(v.tunnels.contains_key(k));
    }
    assert forall|id: Seq<char>| #[trigger] w.inverse.contains_key(id) implies w.tunnels.contains_key(
        w.inverse[id],
    ) && w.tunnels[w.inverse[id]].0 == id by {
        assert(v.inverse.contains_key(id));
        assert(w.tunnels.contains_key(v.inverse[id]));
    }
}


/// A caller that starts a session never gets an id whose return path on that
/// tunnel and port is held, so it never takes the id of a caller that holds
/// one there.
pub proof fn law_new_caller_avoids_held_ids(
    v: RouterView,
    key: Seq<char>,
    port: u16,
    caller: SocketAddress,
    held: u16,
    now: u64,
)
    requires
        v.wf(),
        v.tunnels.contains_key(key),
        !v.sessions.contains_key((key, port, caller)),
        v.udp_callers.contains_key((key, port, held)),
    ensures
        v.session(key, port, caller, now).1 != Some(held),
        v.session(key, port, caller, now).1 != Some(0u16),
{
    lemma_first_free_step(v.udp_callers, key, port, v.tunnels[key].1, 1);
}

/// A return path keeps leading to its caller: a reply refreshes it, idle
/// collection keeps it while it is fresh, and handing out a session id, or
/// routing a datagram, for any caller on any tunnel and port keeps it.
pub proof fn law_return_path_persists(
    v: RouterView,
    key: Seq<char>,
    port: u16,
    sid: u16,
    other_dcid: Seq<char>,
    other_key: Seq<char>,
    other_port: u16,
    other_payload: Seq<u8>,
    other_caller: SocketAddress,
    now: u64,
    max_idle: u64,
)
    requires
        v.wf(),
        v.udp_callers.contains_key((key, port, sid)),
    ensures
        ({
            let caller = v.udp_callers[(key, port, sid)].0;
            let (w, r) = v.return_path(key, port, sid, now);
            &&& r == Some(caller)
            &&& w.udp_callers[(key, port, sid)] == (caller, now)
        }),
        fresh(v.udp_callers[(key, port, sid)].1, now, max_idle) ==> v.collected(
            now,
            max_idle,
        ).udp_callers[(key, port, sid)] == v.udp_callers[(key, port, sid)],
        v.tunnels.contains_key(other_key) ==> ({
            let w = v.session(other_key, other_port, other_caller, now).0;
            &&& w.udp_callers.contains_key((key, port, sid))
            &&& w.udp_callers[(key, port, sid)].0 == v.udp_callers[(key, port, sid)].0
        }),
        ({
            let w = v.route_udp(other_dcid, other_port, other_payload, other_caller, now).0;
            &&& w.udp_callers.contains_key((key, port, sid))
            &&& w.udp_callers[(key, port, sid)].0 == v.udp_callers[(key, port, sid)].0
        }),
{
    if v.tunnels.contains_key(other_key) {
        lemma_session_keeps_path(v, key, port, sid, other_key, other_port, other_caller, now);
    }
    let (v1, found) = v.resolve_tunnel(other_dcid, other_caller, now);
    assert(v1.udp_callers == v.udp_callers && v1.sessions == v.sessions && v1.tunnels == v.tunnels);
    if let Some(k) = found {
        if v1.tunnels.contains_key(k) {
            lemma_session_keeps_path(v1, key, port, sid, k, other_port, other_caller, now);
        }
    }
}

proof fn lemma_session_keeps_path(
    v: RouterView,
    key: Seq<char>,
    port: u16,
    sid: u16,
    other_key: Seq<char>,
    other_port: u16,
    other_caller: SocketAddress,
    now: u64,
)
    requires
        crate::routing_model::paths_match_sessions(v.udp_callers, v.sessions),
        v.udp_callers.contains_key((key, port, sid)),
        v.tunnels.contains_key(other_key),
    ensures
        ({
            let w = v.session(other_key, other_port, other_caller, now).0;
            &&& w.udp_callers.contains_key((key, port, sid))
            &&& w.udp_callers[(key, port, sid)].0 == v.udp_callers[(key, port, sid)].0
        }),
{
    if !v.sessions.contains_key((other_key, other_port, other_caller)) {
        lemma_first_free_step(v.udp_callers, other_key, other_port, v.tunnels[other_key].1, 1);
    } else {
        let s2 = v.sessions[(other_key, other_port, other_caller)].0;
        assert(v.udp_callers[(other_key, other_port, s2)].0 == other_caller);
    }
}

proof fn lemma_chars_lt_irreflexive(a: Seq<char>)
    ensures
        !chars_lt(a, a),
    decreases a.len(),
{
    if a.len() > 0 {
        lemma_chars_lt_irreflexive(a.drop_first());
    }
}

proof fn lemma_chars_lt_asymmetric(a: Seq<char>, b: Seq<char>)
    ensures
        chars_lt(a, b) ==> !chars_lt(b, a),
    decreases a.len(),
{
    if a.len() > 0 && b.len() > 0 && a[0] == b[0] {
        lemma_chars_lt_asymmetric(a.drop_first(), b.drop_first());
    }
}

proof fn lemma_chars_lt_transitive(a: Seq<char>, b: Seq<char>, c: Seq<char>)
    ensures
        chars_lt(a, b) && chars_lt(b, c) ==> chars_lt(a, c),
    decreases a.len(),
{
    if a.len() > 0 && b.len() > 0 && c.len() > 0 && a[0] == b[0] && b[0] == c[0] {
        lemma_chars_lt_transitive(a.drop_first(), b.drop_first(), c.drop_first());
    }
}

proof fn lemma_chars_lt_total(a: Seq<char>, b: Seq<char>)
    ensures
        a != b ==> chars_lt(a, b) || chars_lt(b, a),
    decreases a.len(),
{
    if a.len() == 0 && b.len() == 0 {
        assert(a =~= b);
    } else if a.len() > 0 && b.len() > 0 && a[0] != b[0] {
        vstd::utf8::char_u32_cast(a[0], a[0] as u32);
        vstd::utf8::char_u32_cast(b[0], b[0] as u32);
    } else if a.len() > 0 && b.len() > 0 && a[0] == b[0] {
        lemma_chars_lt_total(a.drop_first(), b.drop_first());
        if a.drop_first() == b.drop_first() {
            assert(a.drop_first().len() == b.drop_first().len());
            assert(a.len() == b.len());
            assert forall|i: int| 0 <= i < a.len() implies a[i] == b[i] by {
                if i > 0 {
                    assert(a[i] == a.drop_first()[i - 1]);
                    assert(b[i] == b.drop_first()[i - 1]);
                }
            }
            assert(a =~= b);
        }
    }
}

proof fn lemma_addr_lt_order(a: SocketAddress, b: SocketAddress, c: SocketAddress)
    ensures
        !addr_lt(a, a),
        addr_lt(a, b) ==> !addr_lt(b, a),
        addr_lt(a, b) && addr_lt(b, c) ==> addr_lt(a, c),
{
    assert(ip_lt(a.ip, b.ip) && ip_lt(b.ip, c.ip) ==> ip_lt(a.ip, c.ip));
}

/// The fallback order is a strict order that ranks any two records of
/// different tunnels.
proof fn lemma_rec_gt_order(a: CallerRec, b: CallerRec, c: CallerRec)
    ensures
        !rec_gt(a, a),
        rec_gt(a, b) ==> !rec_gt(b, a),
        rec_gt(a, b) && rec_gt(b, c) ==> rec_gt(a, c),
        a.0 != b.0 ==> rec_gt(a, b) || rec_gt(b, a),
{
    lemma_chars_lt_irreflexive(a.0);
    lemma_chars_lt_irreflexive(b.0);
    lemma_chars_lt_asymmetric(a.0, b.0);
    lemma_chars_lt_transitive(c.0, b.0, a.0);
    lemma_chars_lt_total(a.0, b.0);
    lemma_addr_lt_order(a.1, b.1, c.1);
    lemma_addr_lt_order(c.1, b.1, a.1);
    lemma_addr_lt_order(b.1, a.1, c.1);
}

/// No record of a list whose records name distinct tunnels ranks above the
/// one `best_index` picks.
proof fn lemma_best_index_greatest(s: Seq<CallerRec>)
    requires
        s.len() > 0,
        distinct_keys(s),
    ensures
        forall|i: int| 0 <= i < s.len() ==> !rec_gt(#[trigger] s[i], s[best_index(s)]),
    decreases s.len(),
{
    lemma_best_index_bounds(s);
    if s.len() == 1 {
        lemma_rec_gt_order(s[0], s[0], s[0]);
    } else {
        let t = s.drop_last();
        assert(distinct_keys(t));
        lemma_best_index_greatest(t);
        lemma_best_index_bounds(t);
        let b = best_index(t);
        let last = s.last();
        let n = s.len() - 1;
        assert(s[b] == t[b]);
        assert(s[n] == last);
        if rec_gt(s[b], last) {
            assert(best_index(s) == b);
            assert forall|i: int| 0 <= i < s.len() implies !rec_gt(#[trigger] s[i], s[b]) by {
                if i < n {
                    assert(s[i] == t[i]);
                } else {
                    lemma_rec_gt_order(s[b], last, s[b]);
                }
            }
        } else {
            assert(best_index(s) == n);
            assert forall|i: int| 0 <= i < s.len() implies !rec_gt(#[trigger] s[i], last) by {
                if i < n {
                    assert(s[i] == t[i]);
                    assert(!rec_gt(t[i], t[b]));
                    if i != b {
                        assert(s[i].0 != s[b].0);
                        lemma_rec_gt_order(s[b], s[i], last);
                        lemma_rec_gt_order(s[i], s[b], last);
                    }
                } else {
                    lemma_rec_gt_order(last, last, last);
                }
            }
        }
    }
}

/// The caller fallback answers with the fresh record of the caller's IP that
/// ranks first in the fallback order: the most recent use, then the greater
/// tunnel key, then the greater caller address; no other fresh record of
/// that IP ranks above it.
pub proof fn law_fallback_picks_first_in_order(v: RouterView, caller: SocketAddress, now: u64)
    requires
        v.wf(),
        v.caller_fallback(caller, now).1 is Some,
    ensures
        ({
            let s = v.callers[caller.ip];
            let key = v.caller_fallback(caller, now).1->Some_0;
            exists|i: int|
                0 <= i < s.len() && (#[trigger] s[i]).0 == key && fresh(
                    s[i].2,
                    now,
                    UDP_FALLBACK_WINDOW_MS,
                ) && forall|j: int|
                    0 <= j < s.len() && fresh(#[trigger] s[j].2, now, UDP_FALLBACK_WINDOW_MS)
                        ==> !rec_gt(s[j], s[i])
        }),
{
    let s = v.callers[caller.ip];
    let p = fresh_pred(now, UDP_FALLBACK_WINDOW_MS);
    let f = filter_recs(s, p);
    lemma_filter_recs_sub(s, p);
    lemma_filter_recs_complete(s, p);
    lemma_filter_recs_distinct(s, p);
    lemma_best_index_bounds(f);
    lemma_best_index_greatest(f);
    let b = best_index(f);
    assert(s.contains(f[b]));
    let i = choose|i: int| 0 <= i < s.len() && s[i] == f[b];
    assert forall|j: int|
        0 <= j < s.len() && fresh(#[trigger] s[j].2, now, UDP_FALLBACK_WINDOW_MS) implies !rec_gt(
        s[j],
        s[i],
    ) by {
        assert(p(s[j]));
        assert(f.contains(s[j]));
        let k = choose|k: int| 0 <= k < f.len() && f[k] == s[j];
        assert(!rec_gt(f[k], f[b]));
    }
}


/// A registration or a close of a tunnel, as the model sees it.
pub enum TableOp {
    Register { stable_id: Seq<char>, key: Seq<char> },
    Unregister { key: Seq<char>, expected: Option<Seq<char>> },
}

/// The table after applying `ops` in order to `v`.
pub open spec fn apply_ops(v: RouterView, ops: Seq<TableOp>) -> RouterView
    decreases ops.len(),
{
    if ops.len() == 0 {
        v
    } else {
        let w = apply_ops(v, ops.drop_last());
        match ops.last() {
            TableOp::Register { stable_id, key } => w.registered(stable_id, key),
            TableOp::Unregister { key, expected } => w.unregistered(key, expected),
        }
    }
}

/// The connection an operation registers, if it is a registration.
pub open spec fn registered_connection(op: TableOp) -> Option<Seq<char>> {
    match op {
        TableOp::Register { stable_id, .. } => Some(stable_id),
        TableOp::Unregister { .. } => None,
    }
}

/// Whether `id` is the connection of one of the registrations in `ops`.
pub open spec fn registers_id(ops: Seq<TableOp>, id: Seq<char>) -> bool {
    exists|i: int| 0 <= i < ops.len() && registered_connection(#[trigger] ops[i]) == Some(id)
}

/// No connection registers twice in `ops`.
pub open spec fn distinct_connections(ops: Seq<TableOp>) -> bool {
    forall|i: int, j: int|
        0 <= i < j < ops.len() && registered_connection(#[trigger] ops[i]) is Some
            ==> registered_connection(ops[i]) != registered_connection(#[trigger] ops[j])
}

/// From an empty table, any sequence of registrations and closes in which
/// each connection registers at most once leaves the inverse table mapping
/// exactly the stable id of each registered tunnel's connection to its key.
pub proof fn law_inverse_table_tracks_tunnels_from_empty(v: RouterView, ops: Seq<TableOp>)
    requires
        v.wf(),
        v.tunnels.dom().is_empty(),
        v.inverse.dom().is_empty(),
        distinct_connections(ops),
    ensures
        apply_ops(v, ops).wf(),
        apply_ops(v, ops).inverse_tracks_tunnels(),
        forall|id: Seq<char>| #[trigger]
            apply_ops(v, ops).inverse.contains_key(id) ==> registers_id(ops, id),
    decreases ops.len(),
{
    if ops.len() > 0 {
        let n = ops.len() - 1;
        let p = ops.drop_last();
        assert forall|i: int, j: int|
            0 <= i < j < p.len() && registered_connection(#[trigger] p[i]) is Some implies registered_connection(p[i])
                != registered_connection(#[trigger] p[j]) by {
            assert(p[i] == ops[i] && p[j] == ops[j]);
        }
        law_inverse_table_tracks_tunnels_from_empty(v, p);
        let w = apply_ops(v, p);
        assert(ops[n] == ops.last());
        assert forall|id: Seq<char>| registers_id(p, id) implies registers_id(ops, id) by {
            let i = choose|i: int| 0 <= i < p.len() && registered_connection(#[trigger] p[i]) == Some(id);
            assert(ops[i] == p[i]);
        }
        match ops.last() {
            TableOp::Register { stable_id, key } => {
                if w.inverse.contains_key(stable_id) {
                    assert(registers_id(p, stable_id));
                    let i = choose|i: int|
                        0 <= i < p.len() && registered_connection(#[trigger] p[i]) == Some(stable_id);
                    assert(ops[i] == p[i]);
                    assert(registered_connection(ops[n]) == Some(stable_id));
                    assert(false);
                }
                lemma_registered_tracks(w, stable_id, key);
                crate::routing_model::lemma_registered_wf(w, stable_id, key);
                let r = w.registered(stable_id, key);
                assert forall|id: Seq<char>| #[trigger] r.inverse.contains_key(id) implies registers_id(ops, id) by {
                    if id == stable_id {
                        assert(registered_connection(ops[n]) == Some(id));
                    } else {
                        assert(w.inverse.contains_key(id));
                    }
                }
            },
            TableOp::Unregister { key, expected } => {
                lemma_unregistered_tracks(w, key, expected);
                crate::routing_model::lemma_unregistered_wf(w, key, expected);
                let r = w.unregistered(key, expected);
                assert forall|id: Seq<char>| #[trigger] r.inverse.contains_key(id) implies registers_id(ops, id) by {
                    assert(w.inverse.contains_key(id));
                }
            },
        }
    } else {
        assert(v.inverse_tracks_tunnels());
    }
}


/// Routing a datagram by its DCID marks the mapping as used: the datagram
/// goes to the mapped tunnel key, the mapping afterwards reads (that key,
/// `now`), and so a collection at any time up to `now + max_idle` keeps it,
/// and a later datagram with that DCID still resolves to that key.
pub proof fn law_dcid_hit_marks_mapping_used(
    v: RouterView,
    dcid: Seq<char>,
    port: u16,
    payload: Seq<u8>,
    caller: SocketAddress,
    now: u64,
    t: u64,
    max_idle: u64,
    later_caller: SocketAddress,
    later: u64,
)
    requires
        v.wf(),
        v.dcids.contains_key(dcid),
    ensures
        v.resolve_tunnel(dcid, caller, now).1 == Some(v.dcids[dcid].0),
        ({
            let w = v.route_udp(dcid, port, payload, caller, now).0;
            &&& w.dcids.contains_key(dcid)
            &&& w.dcids[dcid] == (v.dcids[dcid].0, now)
            &&& t <= now + max_idle ==> {
                let g = w.collected(t, max_idle);
                &&& g.dcids.contains_key(dcid)
                &&& g.dcids[dcid] == (v.dcids[dcid].0, now)
                &&& g.resolve_tunnel(dcid, later_caller, later).1 == Some(v.dcids[dcid].0)
            }
        }),
{
}

/// Asking for the session of a caller that already holds one on a tunnel
/// and port gives back the same id and marks the session and its return path
/// as used at `now`; so a collection at any time up to `now + max_idle` keeps
/// both, and the caller keeps its id afterwards.
pub proof fn law_session_reuse_marks_session_used(
    v: RouterView,
    key: Seq<char>,
    port: u16,
    caller: SocketAddress,
    now: u64,
    t: u64,
    max_idle: u64,
    later: u64,
)
    requires
        v.wf(),
        v.sessions.contains_key((key, port, caller)),
    ensures
        ({
            let sid = v.sessions[(key, port, caller)].0;
            let (w, r) = v.session(key, port, caller, now);
            &&& r == Some(sid)
            &&& w.sessions[(key, port, caller)] == (sid, now)
            &&& w.udp_callers.contains_key((key, port, sid))
            &&& w.udp_callers[(key, port, sid)] == (caller, now)
            &&& t <= now + max_idle ==> {
                let g = w.collected(t, max_idle);
                &&& g.sessions.contains_key((key, port, caller))
                &&& g.udp_callers.contains_key((key, port, sid))
                &&& g.udp_callers[(key, port, sid)].0 == caller
                &&& g.session(key, port, caller, later).1 == Some(sid)
                &&& g.return_path(key, port, sid, later).1 == Some(caller)
            }
        }),
{
}

} // verus!

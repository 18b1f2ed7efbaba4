//! The abstract state of the routing table and what each operation does to it.

use vstd::prelude::*;

use crate::addr::{addr_lt, IpAddress, SocketAddress};
use crate::router::{
    distinct_keys, filter_recs, fresh_caller_index, fresh_entries, fresh_mappings,
    lemma_filter_recs_distinct, lemma_filter_recs_sub, other_tunnel_caller_index,
    other_tunnel_entries, other_tunnel_sessions, other_tunnel_udp_keys, prune_caller_index,
    CallerRec, UDP_FALLBACK_WINDOW_MS,
};
use crate::text::chars_lt;

verus! {

/// The routing table's contents and telemetry counters.
pub struct RouterView {
    /// Tunnel key → (stable id of the tunnel's connection, next session counter).
    pub tunnels: Map<Seq<char>, (Seq<char>, u16)>,
    /// Connection stable id → tunnel key.
    pub inverse: Map<Seq<char>, Seq<char>>,
    /// DCID → (tunnel key, last use).
    pub dcids: Map<Seq<char>, (Seq<char>, u64)>,
    /// (tunnel key, public port, session id) → (caller, last use).
    pub udp_callers: Map<(Seq<char>, u16, u16), (SocketAddress, u64)>,
    /// Caller IP → (tunnel key, caller, last use) for the tunnels recently used from it.
    pub callers: Map<IpAddress, Seq<CallerRec>>,
    /// (tunnel key, public port, caller) → (session id, last use).
    pub sessions: Map<(Seq<char>, u16, SocketAddress), (u16, u64)>,
    pub ingress_bytes: u64,
    pub egress_bytes: u64,
    pub rejected_datagrams: u64,
    pub session_id_exhausted: usize,
}

/// A caller list is well formed for `ip` when it is not empty, names each
/// tunnel at most once, and holds only addresses with that IP.
pub open spec fn caller_list_wf(s: Seq<CallerRec>, ip: IpAddress) -> bool {
    &&& s.len() > 0
    &&& distinct_keys(s)
    &&& forall|i: int| 0 <= i < s.len() ==> (#[trigger] s[i]).1.ip == ip
}

pub open spec fn caller_index_wf(m: Map<IpAddress, Seq<CallerRec>>) -> bool {
    forall|ip: IpAddress| #[trigger] m.contains_key(ip) ==> caller_list_wf(m[ip], ip)
}

pub proof fn lemma_prune_caller_index_wf(
    m: Map<IpAddress, Seq<CallerRec>>,
    p: spec_fn(CallerRec) -> bool,
)
    requires
        caller_index_wf(m),
    ensures
        caller_index_wf(prune_caller_index(m, p)),
{
    let r = prune_caller_index(m, p);
    assert forall|ip: IpAddress| #[trigger] r.contains_key(ip) implies caller_list_wf(r[ip], ip) by {
        let s = m[ip];
        lemma_filter_recs_sub(s, p);
        lemma_filter_recs_distinct(s, p);
        let f = filter_recs(s, p);
        assert forall|i: int| 0 <= i < f.len() implies (#[trigger] f[i]).1.ip == ip by {
            assert(s.contains(f[i]));
        }
    }
}

/// The order in which the caller fallback prefers records: later use first,
/// then the greater tunnel key, then the greater caller address.
pub open spec fn rec_gt(a: CallerRec, b: CallerRec) -> bool {
    ||| a.2 > b.2
    ||| (a.2 == b.2 && chars_lt(b.0, a.0))
    ||| (a.2 == b.2 && a.0 == b.0 && addr_lt(b.1, a.1))
}

/// The index of the greatest record, scanning from the front and letting a
/// later record win unless the best one so far is strictly greater.
pub open spec fn best_index(s: Seq<CallerRec>) -> int
    decreases s.len(),
{
    if s.len() <= 1 {
        0
    } else {
        let b = best_index(s.drop_last());
        if rec_gt(s[b], s.last()) {
            b
        } else {
            s.len() - 1
        }
    }
}

pub proof fn lemma_best_index_bounds(s: Seq<CallerRec>)
    requires
        s.len() > 0,
    ensures
        0 <= best_index(s) < s.len(),
    decreases s.len(),
{
    if s.len() > 1 {
        lemma_best_index_bounds(s.drop_last());
    }
}

/// A session id is free for (key, port) when it is not zero and no return
/// path uses it.
pub open spec fn session_free(
    udp_callers: Map<(Seq<char>, u16, u16), (SocketAddress, u64)>,
    key: Seq<char>,
    port: u16,
    sid: u16,
) -> bool {
    sid != 0 && !udp_callers.contains_key((key, port, sid))
}

/// The session id `d` steps after the counter value `start`.
pub open spec fn sid_after(start: u16, d: int) -> u16 {
    ((start + d) % 0x1_0000) as u16
}

/// The least step `d` in `from..=65535` after `start` whose session id is free,
/// or 65536 when there is none.
pub open spec fn first_free_step(
    udp_callers: Map<(Seq<char>, u16, u16), (SocketAddress, u64)>,
    key: Seq<char>,
    port: u16,
    start: u16,
    from: int,
) -> int
    decreases 0x1_0000 - from,
{
    if from < 1 || from > 0xffff {
        0x1_0000
    } else if session_free(udp_callers, key, port, sid_after(start, from)) {
        from
    } else {
        first_free_step(udp_callers, key, port, start, from + 1)
    }
}

/// The four-byte header (public port, session id, both big-endian) followed
/// by the datagram, as pushed to the client.
pub open spec fn udp_frame(port: u16, sid: u16, payload: Seq<u8>) -> Seq<u8> {
    seq![(port / 256) as u8, (port % 256) as u8, (sid / 256) as u8, (sid % 256) as u8] + payload
}

/// A frame split into its header (public port, session id) and datagram;
/// none when it is shorter than the header.
pub open spec fn parse_udp_frame(data: Seq<u8>) -> Option<(u16, u16, Seq<u8>)> {
    if data.len() < 4 {
        None
    } else {
        Some(
            (
                (data[0] * 256 + data[1]) as u16,
                (data[2] * 256 + data[3]) as u16,
                data.subrange(4, data.len() as int),
            ),
        )
    }
}

/// Return paths and caller sessions describe one pairing: a caller holds
/// session id `sid` on (key, port) exactly when the return path (key, port,
/// sid) leads to that caller, and both were last used at the same time.  So
/// on one tunnel and port, no two callers hold the same id.
pub open spec fn paths_match_sessions(
    udp_callers: Map<(Seq<char>, u16, u16), (SocketAddress, u64)>,
    sessions: Map<(Seq<char>, u16, SocketAddress), (u16, u64)>,
) -> bool {
    &&& forall|k: (Seq<char>, u16, SocketAddress)| #[trigger]
        sessions.contains_key(k) ==> udp_callers.contains_key((k.0, k.1, sessions[k].0))
            && udp_callers[(k.0, k.1, sessions[k].0)] == (k.2, sessions[k].1)
    &&& forall|k: (Seq<char>, u16, u16)| #[trigger]
        udp_callers.contains_key(k) ==> sessions.contains_key((k.0, k.1, udp_callers[k].0))
            && sessions[(k.0, k.1, udp_callers[k].0)] == (k.2, udp_callers[k].1)
}

impl RouterView {
    pub open spec fn wf(self) -> bool {
        &&& self.tunnels.dom().finite()
        &&& caller_index_wf(self.callers)
        &&& forall|k: (Seq<char>, u16, u16)| #[trigger] self.udp_callers.contains_key(k) ==> k.2 != 0
        &&& forall|k: (Seq<char>, u16, SocketAddress)| #[trigger]
            self.sessions.contains_key(k) ==> self.sessions[k].0 != 0
        &&& paths_match_sessions(self.udp_callers, self.sessions)
    }

    /// The inverse table maps the stable id of each registered tunnel's
    /// connection to its key, and nothing else.
    pub open spec fn inverse_tracks_tunnels(self) -> bool {
        &&& forall|k: Seq<char>| #[trigger]
            self.tunnels.contains_key(k) ==> self.inverse.contains_key(self.tunnels[k].0)
                && self.inverse[self.tunnels[k].0] == k
        &&& forall|id: Seq<char>| #[trigger]
            self.inverse.contains_key(id) ==> self.tunnels.contains_key(self.inverse[id])
                && self.tunnels[self.inverse[id]].0 == id
    }

    /// Every DCID mapping, return path, caller record and caller session of
    /// tunnel `key` dropped.
    pub open spec fn without_tunnel_state(self, key: Seq<char>) -> RouterView {
        RouterView {
            dcids: other_tunnel_entries(self.dcids, key),
            udp_callers: other_tunnel_udp_keys(self.udp_callers, key),
            callers: other_tunnel_caller_index(self.callers, key),
            sessions: other_tunnel_sessions(self.sessions, key),
            ..self
        }
    }

    /// The tunnel of connection `stable_id` installed under `key`; a tunnel
    /// that held the key before is dropped with all its UDP state.
    pub open spec fn registered(self, stable_id: Seq<char>, key: Seq<char>) -> RouterView {
        let base = if self.tunnels.contains_key(key) {
            RouterView {
                inverse: self.inverse.remove(self.tunnels[key].0),
                ..self
            }.without_tunnel_state(key)
        } else {
            self
        };
        RouterView {
            tunnels: base.tunnels.insert(key, (stable_id, 0)),
            inverse: base.inverse.insert(stable_id, key),
            ..base
        }
    }

    /// Whether unregistering `key` removes a tunnel: one must be registered
    /// under it and, when a stable id is expected, be that connection's.
    pub open spec fn removes(self, key: Seq<char>, expected: Option<Seq<char>>) -> bool {
        &&& self.tunnels.contains_key(key)
        &&& (expected matches Some(id) ==> self.tunnels[key].0 == id)
    }

    pub open spec fn unregistered(self, key: Seq<char>, expected: Option<Seq<char>>) -> RouterView {
        if self.removes(key, expected) {
            RouterView {
                tunnels: self.tunnels.remove(key),
                inverse: self.inverse.remove(self.tunnels[key].0),
                ..self
            }.without_tunnel_state(key)
        } else {
            self
        }
    }

    pub open spec fn one_more_rejected(self) -> RouterView {
        RouterView {
            rejected_datagrams: vstd::wrapping::u64_specs::wrapping_add(self.rejected_datagrams, 1),
            ..self
        }
    }

    /// `caller` recorded as having used tunnel `key` at `now`: the record of
    /// that tunnel in the caller's IP list is refreshed, or appended.
    pub open spec fn with_caller(self, caller: SocketAddress, key: Seq<char>, now: u64) -> RouterView {
        let ip = caller.ip;
        let rec = (key, caller, now);
        let list = if !self.callers.contains_key(ip) {
            seq![rec]
        } else if exists|i: int|
            0 <= i < self.callers[ip].len() && (#[trigger] self.callers[ip][i]).0 == key {
            self.callers[ip].map_values(|r: CallerRec| if r.0 == key { rec } else { r })
        } else {
            self.callers[ip].push(rec)
        };
        RouterView { callers: self.callers.insert(ip, list), ..self }
    }

    /// The tunnel a caller's IP last used within the fallback window, with
    /// the IP's list pruned to that window (and dropped when nothing is left).
    pub open spec fn caller_fallback(self, caller: SocketAddress, now: u64) -> (RouterView, Option<Seq<char>>) {
        let ip = caller.ip;
        if !self.callers.contains_key(ip) {
            (self, None)
        } else {
            let pruned = fresh_mappings(self.callers[ip], now, UDP_FALLBACK_WINDOW_MS);
            if pruned.len() == 0 {
                (RouterView { callers: self.callers.remove(ip), ..self }, None)
            } else {
                (
                    RouterView { callers: self.callers.insert(ip, pruned), ..self },
                    Some(pruned[best_index(pruned)].0),
                )
            }
        }
    }

    /// The session id of `caller` on tunnel `key` and `port`: the one the
    /// caller already holds there, or the next free id drawn from the tunnel's counter.
    pub open spec fn session(self, key: Seq<char>, port: u16, caller: SocketAddress, now: u64) -> (RouterView, Option<u16>) {
        if self.sessions.contains_key((key, port, caller)) {
            let sid = self.sessions[(key, port, caller)].0;
            (
                RouterView {
                    sessions: self.sessions.insert((key, port, caller), (sid, now)),
                    udp_callers: self.udp_callers.insert((key, port, sid), (caller, now)),
                    ..self
                },
                Some(sid),
            )
        } else {
            let tunnel = self.tunnels[key];
            let d = first_free_step(self.udp_callers, key, port, tunnel.1, 1);
            if d <= 0xffff {
                let sid = sid_after(tunnel.1, d);
                (
                    RouterView {
                        tunnels: self.tunnels.insert(key, (tunnel.0, sid)),
                        udp_callers: self.udp_callers.insert((key, port, sid), (caller, now)),
                        sessions: self.sessions.insert((key, port, caller), (sid, now)),
                        ..self
                    },
                    Some(sid),
                )
            } else {
                (
                    RouterView {
                        tunnels: self.tunnels.insert(key, (tunnel.0, sid_after(tunnel.1, 0xffff))),
                        session_id_exhausted: vstd::wrapping::usize_specs::wrapping_add(
                            self.session_id_exhausted,
                            1,
                        ),
                        ..self
                    },
                    None,
                )
            }
        }
    }

    /// The tunnel a datagram goes to: the one its DCID is mapped to (refreshing
    /// the mapping and recording the caller), else the caller fallback.
    pub open spec fn resolve_tunnel(self, dcid: Seq<char>, caller: SocketAddress, now: u64) -> (RouterView, Option<Seq<char>>) {
        if self.dcids.contains_key(dcid) {
            let key = self.dcids[dcid].0;
            (
                RouterView { dcids: self.dcids.insert(dcid, (key, now)), ..self }.with_caller(
                    caller,
                    key,
                    now,
                ),
                Some(key),
            )
        } else {
            self.caller_fallback(caller, now)
        }
    }

    /// Routing of a UDP datagram: the stable id of the tunnel's connection and
    /// the frame to push into it, or a rejection.
    pub open spec fn route_udp(
        self,
        dcid: Seq<char>,
        port: u16,
        payload: Seq<u8>,
        caller: SocketAddress,
        now: u64,
    ) -> (RouterView, Option<(Seq<char>, Seq<u8>)>) {
        let (v1, found) = self.resolve_tunnel(dcid, caller, now);
        match found {
            None => (v1.one_more_rejected(), None),
            Some(key) => if !v1.tunnels.contains_key(key) {
                (v1.one_more_rejected(), None)
            } else {
                let (v2, sid) = v1.session(key, port, caller, now);
                match sid {
                    None => (v2.one_more_rejected(), None),
                    Some(s) => (v2, Some((v1.tunnels[key].0, udp_frame(port, s, payload)))),
                }
            },
        }
    }

    /// Routing of a TCP connection for `sni`: the stable id of the connection
    /// of the tunnel registered under it, or a rejection.
    pub open spec fn route_tcp(self, sni: Seq<char>) -> (RouterView, Option<Seq<char>>) {
        if self.tunnels.contains_key(sni) {
            (self, Some(self.tunnels[sni].0))
        } else {
            (self.one_more_rejected(), None)
        }
    }

    /// The caller behind a return path, refreshing the path and the caller's session.
    pub open spec fn return_path(self, key: Seq<char>, port: u16, sid: u16, now: u64) -> (RouterView, Option<SocketAddress>) {
        if !self.udp_callers.contains_key((key, port, sid)) {
            (self, None)
        } else {
            let caller = self.udp_callers[(key, port, sid)].0;
            let v1 = RouterView {
                udp_callers: self.udp_callers.insert((key, port, sid), (caller, now)),
                ..self
            };
            let v2 = if v1.sessions.contains_key((key, port, caller)) {
                RouterView {
                    sessions: v1.sessions.insert(
                        (key, port, caller),
                        (v1.sessions[(key, port, caller)].0, now),
                    ),
                    ..v1
                }
            } else {
                v1
            };
            (v2, Some(caller))
        }
    }

    /// Every DCID mapping, return path, caller record and session idle for
    /// longer than `max_idle` at `now` dropped.
    pub open spec fn collected(self, now: u64, max_idle: u64) -> RouterView {
        RouterView {
            dcids: fresh_entries(self.dcids, now, max_idle),
            udp_callers: fresh_entries(self.udp_callers, now, max_idle),
            callers: fresh_caller_index(self.callers, now, max_idle),
            sessions: fresh_entries(self.sessions, now, max_idle),
            ..self
        }
    }
}

pub proof fn lemma_without_tunnel_state_wf(v: RouterView, key: Seq<char>)
    requires
        v.wf(),
    ensures
        v.without_tunnel_state(key).wf(),
{
    lemma_prune_caller_index_wf(v.callers, crate::router::other_tunnel_pred(key));
    let w = v.without_tunnel_state(key);
    assert(paths_match_sessions(w.udp_callers, w.sessions));
}

pub proof fn lemma_collected_wf(v: RouterView, now: u64, max_idle: u64)
    requires
        v.wf(),
    ensures
        v.collected(now, max_idle).wf(),
{
    lemma_prune_caller_index_wf(v.callers, crate::router::fresh_pred(now, max_idle));
    let w = v.collected(now, max_idle);
    assert(paths_match_sessions(w.udp_callers, w.sessions));
}

pub proof fn lemma_session_wf(v: RouterView, key: Seq<char>, port: u16, caller: SocketAddress, now: u64)
    requires
        v.wf(),
        v.tunnels.contains_key(key),
    ensures
        v.session(key, port, caller, now).0.wf(),
{
    let (w, r) = v.session(key, port, caller, now);
    if !v.sessions.contains_key((key, port, caller)) {
        crate::router_laws::lemma_first_free_step(v.udp_callers, key, port, v.tunnels[key].1, 1);
    }
    assert(w.tunnels.dom() =~= v.tunnels.dom());
    assert(paths_match_sessions(w.udp_callers, w.sessions));
}

pub proof fn lemma_return_path_wf(v: RouterView, key: Seq<char>, port: u16, sid: u16, now: u64)
    requires
        v.wf(),
    ensures
        v.return_path(key, port, sid, now).0.wf(),
{
    let (w, r) = v.return_path(key, port, sid, now);
    assert(paths_match_sessions(w.udp_callers, w.sessions));
}

pub proof fn lemma_registered_wf(v: RouterView, stable_id: Seq<char>, key: Seq<char>)
    requires
        v.wf(),
    ensures
        v.registered(stable_id, key).wf(),
{
    if v.tunnels.contains_key(key) {
        let v1 = RouterView { inverse: v.inverse.remove(v.tunnels[key].0), ..v };
        lemma_without_tunnel_state_wf(v1, key);
    }
}

pub proof fn lemma_unregistered_wf(v: RouterView, key: Seq<char>, expected: Option<Seq<char>>)
    requires
        v.wf(),
    ensures
        v.unregistered(key, expected).wf(),
{
    if v.removes(key, expected) {
        let v1 = RouterView {
            tunnels: v.tunnels.remove(key),
            inverse: v.inverse.remove(v.tunnels[key].0),
            ..v
        };
        lemma_without_tunnel_state_wf(v1, key);
    }
}

} // verus!

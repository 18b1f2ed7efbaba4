//! The routing table: which client tunnel serves which tunnel key, which DCIDs
//! and caller addresses lead to which tunnel, and the UDP sessions that let
//! replies find their way back to the caller.

use vstd::prelude::*;

use crate::addr::{addr_less, IpAddress, SocketAddress};
use crate::maps::{
    CallerIndexMap, DcidMap, InverseMap, SessionMap, TunnelMap, UdpCallerMap,
    callers_get, callers_insert, callers_new, callers_remove, callers_retain_fresh,
    callers_retain_other_tunnels, dcids_get, dcids_insert, dcids_new, dcids_retain_fresh,
    dcids_retain_other_tunnels, inverse_insert, inverse_new, inverse_remove, sessions_get,
    sessions_insert, sessions_new, sessions_retain_fresh, sessions_retain_other_tunnels,
    tunnels_get, tunnels_insert, tunnels_len, tunnels_new, tunnels_remove, udp_callers_get,
    udp_callers_insert, udp_callers_new, udp_callers_retain_fresh,
    udp_callers_retain_other_tunnels, caller_session_table, caller_tunnel_table, dcid_table,
    inverse_table, tunnel_table, udp_caller_table,
};
use crate::routing_model::{
    parse_udp_frame,
    udp_frame,
    first_free_step, session_free, sid_after,
    best_index, rec_gt,
    lemma_collected_wf, lemma_registered_wf, lemma_return_path_wf, lemma_session_wf,
    lemma_unregistered_wf, lemma_without_tunnel_state_wf,
    RouterView,
};
use crate::text::{opt_chars, str_eq, str_lt};

verus! {

/// How long a caller address keeps leading to the tunnel it last used when its
/// datagrams carry an unknown DCID, in milliseconds.
pub const UDP_FALLBACK_WINDOW_MS: u64 = 5000;

/// A registered client tunnel: the stable id of its QUIC connection and the
/// counter from which its UDP session ids are drawn.
pub struct Tunnel {
    pub stable_id: String,
    pub next_udp_session_id: u16,
}

impl Clone for Tunnel {
    fn clone(&self) -> (r: Self)
        ensures
            r@ == self@,
    {
        Tunnel { stable_id: self.stable_id.clone(), next_udp_session_id: self.next_udp_session_id }
    }
}

impl View for Tunnel {
    type V = (Seq<char>, u16);

    open spec fn view(&self) -> (Seq<char>, u16) {
        (self.stable_id@, self.next_udp_session_id)
    }
}

/// A caller address that recently reached a tunnel, and when.
pub struct CallerTunnel {
    pub tunnel_key: String,
    pub caller_addr: SocketAddress,
    pub last_seen: u64,
}

impl Clone for CallerTunnel {
    fn clone(&self) -> (r: Self)
        ensures
            r@ == self@,
    {
        CallerTunnel {
            tunnel_key: self.tunnel_key.clone(),
            caller_addr: self.caller_addr,
            last_seen: self.last_seen,
        }
    }
}

/// (tunnel key, caller address, last seen)
pub type CallerRec = (Seq<char>, SocketAddress, u64);

impl View for CallerTunnel {
    type V = CallerRec;

    open spec fn view(&self) -> CallerRec {
        (self.tunnel_key@, self.caller_addr, self.last_seen)
    }
}

pub open spec fn recs(v: Seq<CallerTunnel>) -> Seq<CallerRec> {
    v.map_values(|c: CallerTunnel| c@)
}

// ---------------------------------------------------------------------------
// Freshness and filters
// ---------------------------------------------------------------------------

/// An entry last used at `last_seen` is fresh at `now` when no more than
/// `max_idle` has elapsed; a `last_seen` after `now` counts as no time elapsed.
pub open spec fn fresh(last_seen: u64, now: u64, max_idle: u64) -> bool {
    (if now >= last_seen {
        now - last_seen
    } else {
        0
    }) <= max_idle
}

pub fn is_fresh(last_seen: u64, now: u64, max_idle: u64) -> (r: bool)
    ensures
        r == fresh(last_seen, now, max_idle),
{
    now.saturating_sub(last_seen) <= max_idle
}

/// The entries of a map whose value was last used within `max_idle` of `now`.
pub open spec fn fresh_entries<K, A>(m: Map<K, (A, u64)>, now: u64, max_idle: u64) -> Map<
    K,
    (A, u64),
> {
    Map::new(|k: K| m.contains_key(k) && fresh(m[k].1, now, max_idle), |k: K| m[k])
}

/// The entries of a map whose value names another tunnel than `key`.
pub open spec fn other_tunnel_entries<K>(m: Map<K, (Seq<char>, u64)>, key: Seq<char>) -> Map<
    K,
    (Seq<char>, u64),
> {
    Map::new(|k: K| m.contains_key(k) && m[k].0 != key, |k: K| m[k])
}

/// The return paths keyed by another tunnel than `key`.
pub open spec fn other_tunnel_udp_keys<A>(m: Map<(Seq<char>, u16, u16), A>, key: Seq<char>) -> Map<
    (Seq<char>, u16, u16),
    A,
> {
    Map::new(|k: (Seq<char>, u16, u16)| m.contains_key(k) && k.0 != key, |k| m[k])
}

/// The caller sessions keyed by another tunnel than `key`.
pub open spec fn other_tunnel_sessions<A>(
    m: Map<(Seq<char>, u16, SocketAddress), A>,
    key: Seq<char>,
) -> Map<(Seq<char>, u16, SocketAddress), A> {
    Map::new(|k: (Seq<char>, u16, SocketAddress)| m.contains_key(k) && k.0 != key, |k| m[k])
}

/// The records of `s` that satisfy `p`, in their order.
pub open spec fn filter_recs(s: Seq<CallerRec>, p: spec_fn(CallerRec) -> bool) -> Seq<CallerRec>
    decreases s.len(),
{
    if s.len() == 0 {
        s
    } else {
        let rest = filter_recs(s.drop_last(), p);
        if p(s.last()) {
            rest.push(s.last())
        } else {
            rest
        }
    }
}

pub open spec fn fresh_pred(now: u64, max_idle: u64) -> spec_fn(CallerRec) -> bool {
    |r: CallerRec| fresh(r.2, now, max_idle)
}

pub open spec fn other_tunnel_pred(key: Seq<char>) -> spec_fn(CallerRec) -> bool {
    |r: CallerRec| r.0 != key
}

pub open spec fn fresh_mappings(s: Seq<CallerRec>, now: u64, max_idle: u64) -> Seq<CallerRec> {
    filter_recs(s, fresh_pred(now, max_idle))
}

pub open spec fn other_tunnel_mappings(s: Seq<CallerRec>, key: Seq<char>) -> Seq<CallerRec> {
    filter_recs(s, other_tunnel_pred(key))
}

/// The caller index with every list filtered by `p`, and the IPs whose
/// filtered list is empty dropped.
pub open spec fn prune_caller_index(
    m: Map<IpAddress, Seq<CallerRec>>,
    p: spec_fn(CallerRec) -> bool,
) -> Map<IpAddress, Seq<CallerRec>> {
    Map::new(
        |ip: IpAddress| m.contains_key(ip) && filter_recs(m[ip], p).len() > 0,
        |ip: IpAddress| filter_recs(m[ip], p),
    )
}

pub open spec fn fresh_caller_index(m: Map<IpAddress, Seq<CallerRec>>, now: u64, max_idle: u64) -> Map<
    IpAddress,
    Seq<CallerRec>,
> {
    prune_caller_index(m, fresh_pred(now, max_idle))
}

pub open spec fn other_tunnel_caller_index(m: Map<IpAddress, Seq<CallerRec>>, key: Seq<char>) -> Map<
    IpAddress,
    Seq<CallerRec>,
> {
    prune_caller_index(m, other_tunnel_pred(key))
}

/// No two records of `s` name the same tunnel.
pub open spec fn distinct_keys(s: Seq<CallerRec>) -> bool {
    forall|i: int, j: int| 0 <= i < j < s.len() ==> s[i].0 != s[j].0
}

pub proof fn lemma_filter_recs_sub(s: Seq<CallerRec>, p: spec_fn(CallerRec) -> bool)
    ensures
        filter_recs(s, p).len() <= s.len(),
        forall|i: int|
            0 <= i < filter_recs(s, p).len() ==> p(#[trigger] filter_recs(s, p)[i]) && s.contains(
                filter_recs(s, p)[i],
            ),
    decreases s.len(),
{
    if s.len() > 0 {
        lemma_filter_recs_sub(s.drop_last(), p);
        let rest = filter_recs(s.drop_last(), p);
        assert forall|i: int| 0 <= i < filter_recs(s, p).len() implies p(
            #[trigger] filter_recs(s, p)[i],
        ) && s.contains(filter_recs(s, p)[i]) by {
            if i < rest.len() {
                assert(s.drop_last().contains(rest[i]));
                let j = choose|j: int| 0 <= j < s.drop_last().len() && s.drop_last()[j] == rest[i];
                assert(s[j] == rest[i]);
            } else {
                assert(s[s.len() - 1] == s.last());
            }
        }
    }
}

pub proof fn lemma_filter_recs_distinct(s: Seq<CallerRec>, p: spec_fn(CallerRec) -> bool)
    requires
        distinct_keys(s),
    ensures
        distinct_keys(filter_recs(s, p)),
    decreases s.len(),
{
    if s.len() > 0 {
        lemma_filter_recs_distinct(s.drop_last(), p);
        lemma_filter_recs_sub(s.drop_last(), p);
        let rest = filter_recs(s.drop_last(), p);
        if p(s.last()) {
            let f = rest.push(s.last());
            assert forall|i: int, j: int| 0 <= i < j < f.len() implies f[i].0 != f[j].0 by {
                if j == f.len() - 1 {
                    assert(s.drop_last().contains(rest[i]));
                    let k = choose|k: int|
                        0 <= k < s.drop_last().len() && s.drop_last()[k] == rest[i];
                    assert(s[k] == rest[i]);
                    assert(s[s.len() - 1] == s.last());
                } else {
                    assert(f[i] == rest[i] && f[j] == rest[j]);
                }
            }
        }
    }
}

pub proof fn lemma_filter_recs_take(s: Seq<CallerRec>, p: spec_fn(CallerRec) -> bool, i: int)
    requires
        0 <= i < s.len(),
    ensures
        filter_recs(s.take(i + 1), p) == if p(s[i]) {
            filter_recs(s.take(i), p).push(s[i])
        } else {
            filter_recs(s.take(i), p)
        },
{
    assert(s.take(i + 1).drop_last() =~= s.take(i));
    assert(s.take(i + 1).last() == s[i]);
}

/// Whether an entry naming tunnel `entry_key` survives the removal of tunnel `key`.
pub fn keeps_other_tunnel(entry_key: &String, key: &str) -> (r: bool)
    ensures
        r == (entry_key@ != key@),
{
    !str_eq(entry_key.as_str(), key)
}

fn filter_mappings(
    mappings: &Vec<CallerTunnel>,
    now: u64,
    max_idle: u64,
    key: &str,
    by_freshness: bool,
) -> (kept: Vec<CallerTunnel>)
    ensures
        by_freshness ==> recs(kept@) == fresh_mappings(recs(mappings@), now, max_idle),
        !by_freshness ==> recs(kept@) == other_tunnel_mappings(recs(mappings@), key@),
{
    let ghost s = recs(mappings@);
    let ghost p = if by_freshness {
        fresh_pred(now, max_idle)
    } else {
        other_tunnel_pred(key@)
    };
    let mut kept: Vec<CallerTunnel> = Vec::new();
    let n = mappings.len();
    let mut i: usize = 0;
    while i < n
        invariant
            n == mappings@.len(),
            s == recs(mappings@),
            i <= n,
            recs(kept@) == filter_recs(s.take(i as int), p),
            p == (if by_freshness {
                fresh_pred(now, max_idle)
            } else {
                other_tunnel_pred(key@)
            }),
        decreases n - i,
    {
        let m = &mappings[i];
        let keep = if by_freshness {
            is_fresh(m.last_seen, now, max_idle)
        } else {
            keeps_other_tunnel(&m.tunnel_key, key)
        };
        proof {
            lemma_filter_recs_take(s, p, i as int);
            assert(s[i as int] == m@);
        }
        if keep {
            let ghost before = kept@;
            kept.push(m.clone());
            assert(recs(kept@) =~= recs(before).push(m@));
        }
        i = i + 1;
    }
    assert(s.take(n as int) =~= s);
    kept
}

/// Prunes a caller list to its fresh entries; true when any entry is left.
pub fn prune_stale_mappings(mappings: &mut Vec<CallerTunnel>, now: u64, max_idle: u64) -> (nonempty:
    bool)
    ensures
        recs(final(mappings)@) == fresh_mappings(recs(old(mappings)@), now, max_idle),
        nonempty == (recs(final(mappings)@).len() > 0),
{
    let kept = filter_mappings(mappings, now, max_idle, "", true);
    *mappings = kept;
    mappings.len() > 0
}

/// Prunes a caller list of its entries for tunnel `key`; true when any entry is left.
pub fn prune_other_tunnel(mappings: &mut Vec<CallerTunnel>, key: &str) -> (nonempty: bool)
    ensures
        recs(final(mappings)@) == other_tunnel_mappings(recs(old(mappings)@), key@),
        nonempty == (recs(final(mappings)@).len() > 0),
{
    let kept = filter_mappings(mappings, 0, 0, key, false);
    *mappings = kept;
    mappings.len() > 0
}

// ---------------------------------------------------------------------------
// The router
// ---------------------------------------------------------------------------

/// Why a tunnel could not be registered.
#[derive(Clone, Copy, PartialEq, Eq, Debug, Structural)]
pub enum RouterError {
    /// Another tunnel holds the key and the new connection is not authenticated.
    AlreadyRegistered,
}

impl RouterError {
    pub fn message(&self) -> (r: &'static str)
        ensures
            r@ == "tunnel key is already registered"@,
    {
        match self {
            RouterError::AlreadyRegistered => "tunnel key is already registered",
        }
    }
}

/// A registered tunnel: its key, and the stable id of the connection it took
/// over from (that connection is to be closed), if any.
pub struct Registration {
    pub key: String,
    pub replaced: Option<String>,
}

/// The routing table's maps, kept private so that only the router changes them.
pub struct RouterTables {
    table: TunnelMap,
    inverse_table: InverseMap,
    dcid_to_sni: DcidMap,
    /// UDP return-path: (tunnel key, public port, session id) → last seen remote caller.
    udp_callers: UdpCallerMap,
    caller_to_tunnel: CallerIndexMap,
    caller_to_session: SessionMap,
}

impl RouterTables {
    /// Tunnel key → (stable id of the tunnel's connection, next session counter).
    pub closed spec fn tunnels_view(&self) -> Map<Seq<char>, (Seq<char>, u16)> {
        tunnel_table(self.table)
    }

    /// Connection stable id → tunnel key.
    pub closed spec fn inverse_view(&self) -> Map<Seq<char>, Seq<char>> {
        inverse_table(self.inverse_table)
    }

    /// DCID → (tunnel key, last use).
    pub closed spec fn dcids_view(&self) -> Map<Seq<char>, (Seq<char>, u64)> {
        dcid_table(self.dcid_to_sni)
    }

    /// (tunnel key, public port, session id) → (caller, last use).
    pub closed spec fn udp_callers_view(&self) -> Map<(Seq<char>, u16, u16), (SocketAddress, u64)> {
        udp_caller_table(self.udp_callers)
    }

    /// Caller IP → the tunnels recently used from it.
    pub closed spec fn callers_view(&self) -> Map<IpAddress, Seq<CallerRec>> {
        caller_tunnel_table(self.caller_to_tunnel)
    }

    /// (tunnel key, public port, caller) → (session id, last use).
    pub closed spec fn sessions_view(&self) -> Map<(Seq<char>, u16, SocketAddress), (u16, u64)> {
        caller_session_table(self.caller_to_session)
    }
}

/// Maps SNI / DCID / stable-ID → active client QUIC tunnel.
pub struct Router {
    pub tables: RouterTables,
    pub total_ingress_bytes: u64,
    pub total_egress_bytes: u64,
    pub total_rejected_datagrams: u64,
    pub total_session_id_exhausted: usize,
}

impl View for Router {
    type V = RouterView;

    open spec fn view(&self) -> RouterView {
        RouterView {
            tunnels: self.tables.tunnels_view(),
            inverse: self.tables.inverse_view(),
            dcids: self.tables.dcids_view(),
            udp_callers: self.tables.udp_callers_view(),
            callers: self.tables.callers_view(),
            sessions: self.tables.sessions_view(),
            ingress_bytes: self.total_ingress_bytes,
            egress_bytes: self.total_egress_bytes,
            rejected_datagrams: self.total_rejected_datagrams,
            session_id_exhausted: self.total_session_id_exhausted,
        }
    }
}

impl Router {
    pub open spec fn wf(&self) -> bool {
        self@.wf()
    }

    pub fn new() -> (r: Self)
        ensures
            r.wf(),
            r@.tunnels.dom().is_empty(),
            r@.inverse.dom().is_empty(),
            r@.dcids.dom().is_empty(),
            r@.udp_callers.dom().is_empty(),
            r@.callers.dom().is_empty(),
            r@.sessions.dom().is_empty(),
            r@.ingress_bytes == 0,
            r@.egress_bytes == 0,
            r@.rejected_datagrams == 0,
            r@.session_id_exhausted == 0,
    {
        let r = Router {
            tables: RouterTables {
                table: tunnels_new(),
                inverse_table: inverse_new(),
                dcid_to_sni: dcids_new(),
                udp_callers: udp_callers_new(),
                caller_to_tunnel: callers_new(),
                caller_to_session: sessions_new(),
            },
            total_ingress_bytes: 0,
            total_egress_bytes: 0,
            total_rejected_datagrams: 0,
            total_session_id_exhausted: 0,
        };
        assert(r@.tunnels.dom() =~= Set::empty());
        r
    }

    /// Register a new client tunnel keyed by SNI or, without one, by the
    /// connection's stable id.  An mTLS connection takes the key over from a
    /// tunnel that holds it; any other connection is refused it.
    pub fn register(&mut self, stable_id: String, sni: Option<String>, is_mtls: bool) -> (r: Result<
        Registration,
        RouterError,
    >)
        requires
            old(self).wf(),
        ensures
            final(self).wf(),
            ({
                let key = match sni {
                    Some(s) => s@,
                    None => stable_id@,
                };
                let taken = old(self)@.tunnels.contains_key(key);
                match r {
                    Err(e) => {
                        &&& taken && !is_mtls
                        &&& e == RouterError::AlreadyRegistered
                        &&& final(self)@ == old(self)@
                    },
                    Ok(reg) => {
                        &&& !(taken && !is_mtls)
                        &&& reg.key@ == key
                        &&& (reg.replaced is Some <==> taken)
                        &&& (reg.replaced matches Some(id) ==> id@ == old(self)@.tunnels[key].0)
                        &&& final(self)@ == old(self)@.registered(stable_id@, key)
                    },
                }
            }),
    {
        let key = match sni {
            Some(s) => s,
            None => stable_id.clone(),
        };
        let mut replaced: Option<String> = None;
        match tunnels_get(&self.tables.table, key.as_str()) {
            Some(previous) => {
                if !is_mtls {
                    return Err(RouterError::AlreadyRegistered);
                }
                inverse_remove(&mut self.tables.inverse_table, previous.stable_id.as_str());
                assert(self@.tunnels == old(self)@.tunnels);
                assert(self@.callers == old(self)@.callers);
                assert(self@.udp_callers == old(self)@.udp_callers);
                assert(self@.sessions == old(self)@.sessions);
                assert(self@.tunnels.dom().finite());
                assert(crate::routing_model::caller_index_wf(self@.callers));
                self.remove_udp_state_for_tunnel(key.as_str());
                replaced = Some(previous.stable_id);
            },
            None => {},
        }
        tunnels_insert(
            &mut self.tables.table,
            key.clone(),
            Tunnel { stable_id: stable_id.clone(), next_udp_session_id: 0 },
        );
        inverse_insert(&mut self.tables.inverse_table, stable_id, key.clone());
        proof {
            lemma_registered_wf(old(self)@, stable_id@, key@);
        }
        Ok(Registration { key, replaced })
    }

    /// Remove a dead tunnel.
    pub fn unregister(&mut self, key: &str)
        requires
            old(self).wf(),
        ensures
            final(self).wf(),
            final(self)@ == old(self)@.unregistered(key@, None),
    {
        self.unregister_inner(key, None);
    }

    /// Remove a dead tunnel only if the closing connection is still active.
    pub fn unregister_connection(&mut self, key: &str, stable_id: &str)
        requires
            old(self).wf(),
        ensures
            final(self).wf(),
            final(self)@ == old(self)@.unregistered(key@, Some(stable_id@)),
    {
        self.unregister_inner(key, Some(stable_id));
    }

    fn unregister_inner(&mut self, key: &str, expected_stable_id: Option<&str>)
        requires
            old(self).wf(),
        ensures
            final(self).wf(),
            final(self)@ == old(self)@.unregistered(
                key@,
                match expected_stable_id {
                    Some(id) => Some(id@),
                    None => None,
                },
            ),
    {
        let tunnel = match tunnels_get(&self.tables.table, key) {
            Some(t) => t,
            None => return,
        };
        let should_remove = match expected_stable_id {
            None => true,
            Some(id) => str_eq(tunnel.stable_id.as_str(), id),
        };
        if !should_remove {
            return;
        }
        tunnels_remove(&mut self.tables.table, key);
        inverse_remove(&mut self.tables.inverse_table, tunnel.stable_id.as_str());
        assert(self@.tunnels.dom() =~= old(self)@.tunnels.dom().remove(key@));
        assert(self@.callers == old(self)@.callers);
        assert(self@.udp_callers == old(self)@.udp_callers);
        assert(self@.sessions == old(self)@.sessions);
        assert(self@.tunnels.dom().finite());
        self.remove_udp_state_for_tunnel(key);
        proof {
            lemma_unregistered_wf(
                old(self)@,
                key@,
                match expected_stable_id {
                    Some(id) => Some(id@),
                    None => None,
                },
            );
        }
    }

    fn remove_udp_state_for_tunnel(&mut self, key: &str)
        requires
            old(self).wf(),
        ensures
            final(self).wf(),
            final(self)@ == old(self)@.without_tunnel_state(key@),
    {
        dcids_retain_other_tunnels(&mut self.tables.dcid_to_sni, key);
        udp_callers_retain_other_tunnels(&mut self.tables.udp_callers, key);
        callers_retain_other_tunnels(&mut self.tables.caller_to_tunnel, key);
        sessions_retain_other_tunnels(&mut self.tables.caller_to_session, key);
        proof {
            lemma_without_tunnel_state_wf(old(self)@, key@);
        }
    }

    /// Map a QUIC DCID to the tunnel key `sni`, as last used at `now`.
    pub fn map_dcid_to_sni(&mut self, dcid: &str, sni: String, now: u64)
        requires
            old(self).wf(),
        ensures
            final(self).wf(),
            final(self)@ == (RouterView {
                dcids: old(self)@.dcids.insert(dcid@, (sni@, now)),
                ..old(self)@
            }),
    {
        dcids_insert(&mut self.tables.dcid_to_sni, dcid.to_owned(), (sni, now));
    }

    /// Track bytes sent from the client tunnel towards the public side.
    pub fn record_egress_bytes(&mut self, n: u64)
        ensures
            final(self)@ == (RouterView {
                egress_bytes: vstd::wrapping::u64_specs::wrapping_add(old(self)@.egress_bytes, n),
                ..old(self)@
            }),
    {
        self.total_egress_bytes = self.total_egress_bytes.wrapping_add(n);
    }

    /// Track bytes pushed from the public side into a client tunnel.
    pub fn record_ingress_bytes(&mut self, n: u64)
        ensures
            final(self)@ == (RouterView {
                ingress_bytes: vstd::wrapping::u64_specs::wrapping_add(old(self)@.ingress_bytes, n),
                ..old(self)@
            }),
    {
        self.total_ingress_bytes = self.total_ingress_bytes.wrapping_add(n);
    }

    /// The number of registered tunnels.
    pub fn active_tunnels(&self) -> (r: usize)
        ensures
            r == self@.tunnels.len(),
    {
        tunnels_len(&self.tables.table)
    }

    /// Drop every DCID mapping, return path, caller record and caller session
    /// idle for longer than `max_idle` (milliseconds) at `now`.
    pub fn gc_udp_sessions(&mut self, max_idle: u64, now: u64)
        requires
            old(self).wf(),
        ensures
            final(self).wf(),
            final(self)@ == old(self)@.collected(now, max_idle),
    {
        dcids_retain_fresh(&mut self.tables.dcid_to_sni, now, max_idle);
        udp_callers_retain_fresh(&mut self.tables.udp_callers, now, max_idle);
        callers_retain_fresh(&mut self.tables.caller_to_tunnel, now, max_idle);
        sessions_retain_fresh(&mut self.tables.caller_to_session, now, max_idle);
        proof {
            lemma_collected_wf(old(self)@, now, max_idle);
        }
    }

    /// Record that `caller_addr` used tunnel `tunnel_key` at `now`.
    pub fn record_caller_tunnel(&mut self, caller_addr: SocketAddress, tunnel_key: &str, now: u64)
        requires
            old(self).wf(),
        ensures
            final(self).wf(),
            final(self)@ == old(self)@.with_caller(caller_addr, tunnel_key@, now),
    {
        let ip = caller_addr.ip;
        let mapping = CallerTunnel { tunnel_key: tunnel_key.to_owned(), caller_addr, last_seen: now };
        let ghost rec: CallerRec = (tunnel_key@, caller_addr, now);
        assert(mapping@ == rec);
        match callers_get(&self.tables.caller_to_tunnel, ip) {
            None => {
                let mut mappings: Vec<CallerTunnel> = Vec::new();
                mappings.push(mapping);
                assert(recs(mappings@) =~= seq![rec]);
                assert(crate::routing_model::caller_list_wf(recs(mappings@), ip));
                callers_insert(&mut self.tables.caller_to_tunnel, ip, mappings);
            },
            Some(mut mappings) => {
                let ghost s = recs(mappings@);
                assert(crate::routing_model::caller_list_wf(s, ip));
                let n = mappings.len();
                let mut found = n;
                let mut i: usize = 0;
                while found == n && i < n
                    invariant
                        n == mappings@.len(),
                        s == recs(mappings@),
                        i <= n,
                        found <= n,
                        found == n ==> forall|j: int| 0 <= j < i ==> s[j].0 != tunnel_key@,
                        found < n ==> found < i && s[found as int].0 == tunnel_key@,
                    decreases n - i,
                {
                    if str_eq(mappings[i].tunnel_key.as_str(), tunnel_key) {
                        found = i;
                    }
                    i = i + 1;
                }
                if found < n {
                    mappings.set(found, mapping);
                    proof {
                        let updated = s.map_values(
                            |r: CallerRec| if r.0 == tunnel_key@ {
                                rec
                            } else {
                                r
                            },
                        );
                        assert forall|j: int| 0 <= j < s.len() implies #[trigger] recs(mappings@)[j]
                            == updated[j] by {
                            if j != found {
                                assert(s[j].0 != s[found as int].0);
                            }
                        }
                        assert(recs(mappings@) =~= updated);
                        let u = recs(mappings@);
                        assert forall|a: int, b: int| 0 <= a < b < u.len() implies u[a].0 != u[b].0 by {
                            assert(s[a].0 != s[b].0);
                        }
                        assert forall|j: int| 0 <= j < u.len() implies (#[trigger] u[j]).1.ip == ip by {
                            assert(s[j].1.ip == ip);
                        }
                        assert(crate::routing_model::caller_list_wf(u, ip));
                    }
                } else {
                    assert(!exists|j: int| 0 <= j < s.len() && (#[trigger] s[j]).0 == tunnel_key@);
                    mappings.push(mapping);
                    assert(recs(mappings@) =~= s.push(rec));
                    proof {
                        let u = s.push(rec);
                        assert forall|a: int, b: int| 0 <= a < b < u.len() implies u[a].0 != u[b].0 by {
                            if b < s.len() {
                                assert(s[a].0 != s[b].0);
                            } else {
                                assert(s[a].0 != tunnel_key@);
                            }
                        }
                        assert forall|j: int| 0 <= j < u.len() implies (#[trigger] u[j]).1.ip == ip by {
                            if j < s.len() {
                                assert(s[j].1.ip == ip);
                            }
                        }
                        assert(crate::routing_model::caller_list_wf(u, ip));
                    }
                }
                assert(crate::routing_model::caller_list_wf(recs(mappings@), ip));
                callers_insert(&mut self.tables.caller_to_tunnel, ip, mappings);
            },
        }
        proof {
            let post = self@.callers;
            assert(post.contains_key(ip));
            assert(crate::routing_model::caller_list_wf(post[ip], ip));
            assert forall|x: IpAddress| #[trigger] post.contains_key(x) implies crate::routing_model::caller_list_wf(post[x], x) by {
                if x != ip {
                    assert(old(self)@.callers.contains_key(x));
                }
            }
            assert(self@.tunnels == old(self)@.tunnels);
            assert(self@.udp_callers == old(self)@.udp_callers);
            assert(self@.sessions == old(self)@.sessions);
        }
    }

    /// The tunnel that the caller's IP last used within the fallback window;
    /// the IP's records outside the window are dropped.
    pub fn tunnel_key_for_caller(&mut self, caller_addr: SocketAddress, now: u64) -> (r: Option<String>)
        requires
            old(self).wf(),
        ensures
            final(self).wf(),
            (final(self)@, opt_chars(r)) == old(self)@.caller_fallback(caller_addr, now),
    {
        let ip = caller_addr.ip;
        let mut mappings = match callers_get(&self.tables.caller_to_tunnel, ip) {
            Some(m) => m,
            None => return None,
        };
        let ghost s = recs(mappings@);
        let nonempty = prune_stale_mappings(&mut mappings, now, UDP_FALLBACK_WINDOW_MS);
        proof {
            let p = fresh_pred(now, UDP_FALLBACK_WINDOW_MS);
            lemma_filter_recs_sub(s, p);
            lemma_filter_recs_distinct(s, p);
            let f = filter_recs(s, p);
            assert forall|j: int| 0 <= j < f.len() implies (#[trigger] f[j]).1.ip == ip by {
                assert(s.contains(f[j]));
            }
        }
        if !nonempty {
            callers_remove(&mut self.tables.caller_to_tunnel, ip);
            proof {
                let post = self@.callers;
                assert forall|x: IpAddress| #[trigger] post.contains_key(x) implies crate::routing_model::caller_list_wf(post[x], x) by {
                    assert(old(self)@.callers.contains_key(x));
                }
                assert(self@.tunnels == old(self)@.tunnels);
                assert(self@.udp_callers == old(self)@.udp_callers);
                assert(self@.sessions == old(self)@.sessions);
            }
            return None;
        }
        let best = best_mapping_index(&mappings);
        let key = mappings[best].tunnel_key.clone();
        callers_insert(&mut self.tables.caller_to_tunnel, ip, mappings);
        proof {
            let post = self@.callers;
            assert(crate::routing_model::caller_list_wf(post[ip], ip));
            assert forall|x: IpAddress| #[trigger] post.contains_key(x) implies crate::routing_model::caller_list_wf(post[x], x) by {
                if x != ip {
                    assert(old(self)@.callers.contains_key(x));
                }
            }
            assert(self@.tunnels == old(self)@.tunnels);
            assert(self@.udp_callers == old(self)@.udp_callers);
            assert(self@.sessions == old(self)@.sessions);
        }
        Some(key)
    }

    /// The UDP session id of `caller_addr` on tunnel `tunnel_key` and public
    /// port `public_port`: the id the caller already holds there, or the next id of
    /// the tunnel's counter that is neither zero nor in use on that port; none
    /// when a full turn of the counter finds no such id.
    pub fn udp_session_id(
        &mut self,
        tunnel_key: &str,
        public_port: u16,
        caller_addr: SocketAddress,
        now: u64,
    ) -> (r: Option<u16>)
        requires
            old(self).wf(),
            old(self)@.tunnels.contains_key(tunnel_key@),
        ensures
            final(self).wf(),
            (final(self)@, r) == old(self)@.session(tunnel_key@, public_port, caller_addr, now),
    {
        proof {
            lemma_session_wf(old(self)@, tunnel_key@, public_port, caller_addr, now);
        }
        let session_key = (tunnel_key.to_owned(), public_port, caller_addr);
        match sessions_get(&self.tables.caller_to_session, &session_key) {
            Some(existing) => {
                let session_id = existing.0;
                sessions_insert(&mut self.tables.caller_to_session, session_key, (session_id, now));
                udp_callers_insert(
                    &mut self.tables.udp_callers,
                    (tunnel_key.to_owned(), public_port, session_id),
                    (caller_addr, now),
                );
                proof {
                    assert(self@.tunnels == old(self)@.tunnels);
                    assert(self@.callers == old(self)@.callers);
                }
                return Some(session_id);
            },
            None => {},
        }
        let tunnel = match tunnels_get(&self.tables.table, tunnel_key) {
            Some(t) => t,
            None => return None,
        };
        let ghost start = tunnel.next_udp_session_id;
        let ghost uc = old(self)@.udp_callers;
        let mut counter = tunnel.next_udp_session_id;
        let mut attempts: u16 = 0;
        while attempts < 0xffff
            invariant
                self@ == old(self)@,
                old(self).wf(),
                session_key@ == (tunnel_key@, public_port, caller_addr),
                !old(self)@.sessions.contains_key(session_key@),
                uc == old(self)@.udp_callers,
                old(self)@.tunnels.contains_key(tunnel_key@),
                tunnel@ == old(self)@.tunnels[tunnel_key@],
                start == tunnel.next_udp_session_id,
                counter == sid_after(start, attempts as int),
                first_free_step(uc, tunnel_key@, public_port, start, 1) == first_free_step(
                    uc,
                    tunnel_key@,
                    public_port,
                    start,
                    attempts + 1,
                ),
            decreases 0xffff - attempts,
        {
            counter = counter.wrapping_add(1);
            attempts = attempts + 1;
            assert(counter == sid_after(start, attempts as int));
            let session_id = counter;
            if session_id == 0 {
                assert(!session_free(uc, tunnel_key@, public_port, sid_after(start, attempts as int)));
                continue;
            }
            let key = (tunnel_key.to_owned(), public_port, session_id);
            if udp_callers_get(&self.tables.udp_callers, &key).is_none() {
                assert(session_free(uc, tunnel_key@, public_port, sid_after(start, attempts as int)));
                assert(first_free_step(uc, tunnel_key@, public_port, start, attempts as int)
                    == attempts);
                assert(first_free_step(uc, tunnel_key@, public_port, start, 1) == attempts);
                udp_callers_insert(&mut self.tables.udp_callers, key, (caller_addr, now));
                sessions_insert(&mut self.tables.caller_to_session, session_key, (session_id, now));
                tunnels_insert(
                    &mut self.tables.table,
                    tunnel_key.to_owned(),
                    Tunnel { stable_id: tunnel.stable_id, next_udp_session_id: counter },
                );
                proof {
                    assert(self@.callers == old(self)@.callers);
                    assert(self@.tunnels.dom() =~= old(self)@.tunnels.dom());
                }
                return Some(session_id);
            }
            assert(!session_free(uc, tunnel_key@, public_port, sid_after(start, attempts as int)));
        }
        tunnels_insert(
            &mut self.tables.table,
            tunnel_key.to_owned(),
            Tunnel { stable_id: tunnel.stable_id, next_udp_session_id: counter },
        );
        self.total_session_id_exhausted = self.total_session_id_exhausted.wrapping_add(1);
        proof {
            assert(self@.callers == old(self)@.callers);
            assert(self@.tunnels.dom() =~= old(self)@.tunnels.dom());
        }
        None
    }

    /// Count one ingress that could not be handed to a tunnel.
    pub fn record_rejection(&mut self)
        requires
            old(self).wf(),
        ensures
            final(self).wf(),
            final(self)@ == old(self)@.one_more_rejected(),
    {
        self.reject_one();
    }

    fn reject_one(&mut self)
        requires
            old(self).wf(),
        ensures
            final(self).wf(),
            final(self)@ == old(self)@.one_more_rejected(),
    {
        self.total_rejected_datagrams = self.total_rejected_datagrams.wrapping_add(1);
        proof {
            assert(self@.tunnels == old(self)@.tunnels);
            assert(self@.callers == old(self)@.callers);
            assert(self@.udp_callers == old(self)@.udp_callers);
            assert(self@.sessions == old(self)@.sessions);
        }
    }

    /// Route a raw UDP datagram from a remote caller towards its client tunnel:
    /// the tunnel is found by the datagram's DCID or, failing that, by the
    /// caller fallback; the caller gets a session id on the tunnel, and the
    /// result is the stable id of the tunnel's connection with the framed
    /// datagram to push into it.  A datagram that cannot be routed counts as
    /// rejected.
    pub fn route_udp_ingress(
        &mut self,
        dcid: &str,
        ingress_port: u16,
        datagram: &[u8],
        caller_addr: SocketAddress,
        now: u64,
    ) -> (r: Option<UdpForward>)
        requires
            old(self).wf(),
        ensures
            final(self).wf(),
            (final(self)@, forward_view(r)) == old(self)@.route_udp(
                dcid@,
                ingress_port,
                datagram@,
                caller_addr,
                now,
            ),
    {
        let tunnel_key = match dcids_get(&self.tables.dcid_to_sni, dcid) {
            Some(entry) => {
                let key = entry.0;
                dcids_insert(&mut self.tables.dcid_to_sni, dcid.to_owned(), (key.clone(), now));
                proof {
                    assert(self@.tunnels == old(self)@.tunnels);
                    assert(self@.callers == old(self)@.callers);
                    assert(self@.udp_callers == old(self)@.udp_callers);
                    assert(self@.sessions == old(self)@.sessions);
                }
                self.record_caller_tunnel(caller_addr, key.as_str(), now);
                key
            },
            None => match self.tunnel_key_for_caller(caller_addr, now) {
                Some(key) => key,
                None => {
                    self.reject_one();
                    return None;
                },
            },
        };
        let ghost resolved = self@;
        let tunnel = match tunnels_get(&self.tables.table, tunnel_key.as_str()) {
            Some(t) => t,
            None => {
                self.reject_one();
                return None;
            },
        };
        let session_id = match self.udp_session_id(tunnel_key.as_str(), ingress_port, caller_addr, now) {
            Some(sid) => sid,
            None => {
                self.reject_one();
                return None;
            },
        };
        let frame = udp_frame_bytes(ingress_port, session_id, datagram);
        assert(tunnel@.0 == resolved.tunnels[tunnel_key@].0);
        Some(UdpForward { stable_id: tunnel.stable_id, frame })
    }

    /// Record the outcome of pushing a routed datagram of `payload_len` bytes
    /// into its tunnel: sent datagrams count their four header bytes and
    /// payload as ingress, failed ones count as rejected.
    pub fn record_udp_forward(&mut self, sent: bool, payload_len: usize)
        requires
            old(self).wf(),
            payload_len + 4 <= usize::MAX,
        ensures
            final(self).wf(),
            final(self)@ == if sent {
                RouterView {
                    ingress_bytes: vstd::wrapping::u64_specs::wrapping_add(
                        old(self)@.ingress_bytes,
                        (4 + payload_len) as u64,
                    ),
                    ..old(self)@
                }
            } else {
                old(self)@.one_more_rejected()
            },
    {
        if sent {
            self.total_ingress_bytes = self.total_ingress_bytes.wrapping_add((4 + payload_len) as u64);
        } else {
            self.reject_one();
        }
    }

    /// Route an ingress TCP connection for `sni`: the stable id of the
    /// connection of the tunnel registered under it, or none (counted as a
    /// rejection).
    pub fn route_ingress(&mut self, sni: &str) -> (r: Option<String>)
        requires
            old(self).wf(),
        ensures
            final(self).wf(),
            (final(self)@, opt_chars(r)) == old(self)@.route_tcp(sni@),
    {
        match tunnels_get(&self.tables.table, sni) {
            Some(t) => Some(t.stable_id),
            None => {
                self.reject_one();
                None
            },
        }
    }

    /// The caller behind return path (tunnel key, public port, session id);
    /// the path and the caller's session are marked as used at `now`.
    pub fn udp_return_addr(&mut self, tunnel_key: &str, public_port: u16, session_id: u16, now: u64) -> (r:
        Option<SocketAddress>)
        requires
            old(self).wf(),
        ensures
            final(self).wf(),
            (final(self)@, r) == old(self)@.return_path(tunnel_key@, public_port, session_id, now),
    {
        proof {
            lemma_return_path_wf(old(self)@, tunnel_key@, public_port, session_id, now);
        }
        let path = (tunnel_key.to_owned(), public_port, session_id);
        let caller = match udp_callers_get(&self.tables.udp_callers, &path) {
            Some(entry) => entry.0,
            None => return None,
        };
        udp_callers_insert(&mut self.tables.udp_callers, path, (caller, now));
        let session_key = (tunnel_key.to_owned(), public_port, caller);
        match sessions_get(&self.tables.caller_to_session, &session_key) {
            Some(entry) => {
                sessions_insert(&mut self.tables.caller_to_session, session_key, (entry.0, now));
            },
            None => {},
        }
        proof {
            assert(self@.tunnels == old(self)@.tunnels);
            assert(self@.callers == old(self)@.callers);
            assert forall|k: (Seq<char>, u16, u16)| #[trigger] self@.udp_callers.contains_key(k) implies k.2 != 0 by {
                assert(old(self)@.udp_callers.contains_key(k));
            }
            assert forall|k: (Seq<char>, u16, SocketAddress)| #[trigger] self@.sessions.contains_key(k) implies self@.sessions[k].0 != 0 by {
                assert(old(self)@.sessions.contains_key(k));
            }
        }
        Some(caller)
    }

    /// The stable id of the connection of the tunnel registered under `key`.
    pub fn tunnel_stable_id(&self, key: &str) -> (r: Option<String>)
        ensures
            opt_chars(r) == if self@.tunnels.contains_key(key@) {
                Some(self@.tunnels[key@].0)
            } else {
                None
            },
    {
        match tunnels_get(&self.tables.table, key) {
            Some(t) => Some(t.stable_id),
            None => None,
        }
    }

    /// The tunnel key a DCID is mapped to.
    pub fn dcid_tunnel_key(&self, dcid: &str) -> (r: Option<String>)
        ensures
            opt_chars(r) == if self@.dcids.contains_key(dcid@) {
                Some(self@.dcids[dcid@].0)
            } else {
                None
            },
    {
        match dcids_get(&self.tables.dcid_to_sni, dcid) {
            Some(entry) => Some(entry.0),
            None => None,
        }
    }

    /// The caller recorded for a return path, without marking it as used.
    pub fn udp_caller(&self, tunnel_key: &str, public_port: u16, session_id: u16) -> (r: Option<
        SocketAddress,
    >)
        ensures
            r == if self@.udp_callers.contains_key((tunnel_key@, public_port, session_id)) {
                Some(self@.udp_callers[(tunnel_key@, public_port, session_id)].0)
            } else {
                None
            },
    {
        match udp_callers_get(&self.tables.udp_callers, &(tunnel_key.to_owned(), public_port, session_id)) {
            Some(entry) => Some(entry.0),
            None => None,
        }
    }

    /// The session id a caller holds on a tunnel and public port, without
    /// marking it as used.
    pub fn caller_session(&self, tunnel_key: &str, public_port: u16, caller_addr: SocketAddress) -> (r:
        Option<u16>)
        ensures
            r == if self@.sessions.contains_key((tunnel_key@, public_port, caller_addr)) {
                Some(self@.sessions[(tunnel_key@, public_port, caller_addr)].0)
            } else {
                None
            },
    {
        match sessions_get(&self.tables.caller_to_session, &(tunnel_key.to_owned(), public_port, caller_addr)) {
            Some(entry) => Some(entry.0),
            None => None,
        }
    }

    /// Whether any tunnel is recorded for callers with this IP.
    pub fn has_caller_records(&self, ip: IpAddress) -> (r: bool)
        ensures
            r == self@.callers.contains_key(ip),
    {
        callers_get(&self.tables.caller_to_tunnel, ip).is_some()
    }
}

impl Default for Router {
    fn default() -> (r: Self)
        ensures
            r.wf(),
            r@.tunnels.dom().is_empty(),
            r@.inverse.dom().is_empty(),
            r@.dcids.dom().is_empty(),
            r@.udp_callers.dom().is_empty(),
            r@.callers.dom().is_empty(),
            r@.sessions.dom().is_empty(),
            r@.ingress_bytes == 0,
            r@.egress_bytes == 0,
            r@.rejected_datagrams == 0,
            r@.session_id_exhausted == 0,
    {
        Self::new()
    }
}

/// A routed datagram: the stable id of the tunnel's connection and the frame
/// to push into it.
pub struct UdpForward {
    pub stable_id: String,
    pub frame: Vec<u8>,
}

pub open spec fn forward_view(r: Option<UdpForward>) -> Option<(Seq<char>, Seq<u8>)> {
    match r {
        Some(f) => Some((f.stable_id@, f.frame@)),
        None => None,
    }
}

/// The datagram behind its four-byte header: public port and session id, both
/// big-endian.
pub fn udp_frame_bytes(port: u16, session_id: u16, payload: &[u8]) -> (r: Vec<u8>)
    ensures
        r@ == udp_frame(port, session_id, payload@),
{
    let mut v: Vec<u8> = Vec::new();
    v.push((port / 256) as u8);
    v.push((port % 256) as u8);
    v.push((session_id / 256) as u8);
    v.push((session_id % 256) as u8);
    let ghost header = v@;
    let mut i: usize = 0;
    while i < payload.len()
        invariant
            i <= payload@.len(),
            v@ == header + payload@.take(i as int),
        decreases payload@.len() - i,
    {
        v.push(payload[i]);
        assert(payload@.take(i + 1) =~= payload@.take(i as int).push(payload@[i as int]));
        i = i + 1;
    }
    assert(payload@.take(payload@.len() as int) =~= payload@);
    assert(v@ =~= udp_frame(port, session_id, payload@));
    v
}

fn rec_greater(a: &CallerTunnel, b: &CallerTunnel) -> (r: bool)
    ensures
        r == rec_gt(a@, b@),
{
    if a.last_seen != b.last_seen {
        return a.last_seen > b.last_seen;
    }
    if str_lt(b.tunnel_key.as_str(), a.tunnel_key.as_str()) {
        return true;
    }
    if !str_eq(a.tunnel_key.as_str(), b.tunnel_key.as_str()) {
        return false;
    }
    addr_less(b.caller_addr, a.caller_addr)
}

fn best_mapping_index(mappings: &Vec<CallerTunnel>) -> (r: usize)
    requires
        mappings@.len() > 0,
    ensures
        r == best_index(recs(mappings@)),
        r < mappings@.len(),
{
    let ghost s = recs(mappings@);
    let n = mappings.len();
    let mut best: usize = 0;
    let mut i: usize = 1;
    while i < n
        invariant
            n == mappings@.len(),
            s == recs(mappings@),
            1 <= i <= n,
            best < i,
            best == best_index(s.take(i as int)),
        decreases n - i,
    {
        proof {
            assert(s.take(i + 1).drop_last() =~= s.take(i as int));
            assert(s.take(i + 1)[best as int] == s[best as int]);
            assert(s.take(i + 1).last() == s[i as int]);
        }
        if !rec_greater(&mappings[best], &mappings[i]) {
            best = i;
        }
        i = i + 1;
    }
    assert(s.take(n as int) =~= s);
    best
}

/// Split a frame coming back from a client into its header (public port,
/// session id) and the datagram for the caller.
pub fn split_udp_frame(data: &[u8]) -> (r: Option<(u16, u16, &[u8])>)
    ensures
        match parse_udp_frame(data@) {
            None => r is None,
            Some((port, sid, payload)) => r matches Some((p, s, d)) && p == port && s == sid && d@
                == payload,
        },
{
    if data.len() < 4 {
        return None;
    }
    let port = (data[0] as u16) * 256 + data[1] as u16;
    let session_id = (data[2] as u16) * 256 + data[3] as u16;
    Some((port, session_id, vstd::slice::slice_subrange(data, 4, data.len())))
}

} // verus!

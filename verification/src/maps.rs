//! The routing table's concurrent maps: `dashmap::DashMap`, reached through the
//! items below.  Each map's contents are named by a spec function over the map,
//! and each `DashMap` method the router calls has a wrapper whose contract says
//! what the call does to those contents.

use dashmap::DashMap;
use vstd::prelude::*;

use crate::addr::{IpAddress, SocketAddress};
use crate::router::{
    fresh_caller_index, fresh_entries, is_fresh, keeps_other_tunnel, other_tunnel_caller_index,
    other_tunnel_entries, other_tunnel_sessions, other_tunnel_udp_keys, prune_other_tunnel, prune_stale_mappings, recs,
    CallerRec, CallerTunnel, Tunnel,
};

verus! {

#[verifier::external_type_specification]
#[verifier::external_body]
#[verifier::reject_recursive_types(K)]
#[verifier::reject_recursive_types(V)]
#[verifier::reject_recursive_types(S)]
pub struct ExDashMap<K, V, S>(DashMap<K, V, S>);

/// The maps of the routing table.
pub type TunnelMap = DashMap<String, Tunnel>;
pub type InverseMap = DashMap<String, String>;
pub type DcidMap = DashMap<String, (String, u64)>;
pub type UdpCallerMap = DashMap<(String, u16, u16), (SocketAddress, u64)>;
pub type CallerIndexMap = DashMap<IpAddress, Vec<CallerTunnel>>;
pub type SessionMap = DashMap<(String, u16, SocketAddress), (u16, u64)>;

// ---------------------------------------------------------------------------
// Contents of each map
// ---------------------------------------------------------------------------

/// Tunnel key → (stable id of the tunnel's connection, next session counter).
pub uninterp spec fn tunnel_table(m: TunnelMap) -> Map<Seq<char>, (Seq<char>, u16)>;

/// Connection stable id → tunnel key.
pub uninterp spec fn inverse_table(m: InverseMap) -> Map<Seq<char>, Seq<char>>;

/// DCID → (tunnel key, last use).
pub uninterp spec fn dcid_table(m: DcidMap) -> Map<Seq<char>, (Seq<char>, u64)>;

/// (tunnel key, public port, session id) → (caller, last use).
pub uninterp spec fn udp_caller_table(
    m: UdpCallerMap,
) -> Map<(Seq<char>, u16, u16), (SocketAddress, u64)>;

/// Caller IP → the tunnels recently used from that IP.
pub uninterp spec fn caller_tunnel_table(
    m: CallerIndexMap,
) -> Map<IpAddress, Seq<CallerRec>>;

/// (tunnel key, public port, caller) → (session id, last use).
pub uninterp spec fn caller_session_table(
    m: SessionMap,
) -> Map<(Seq<char>, u16, SocketAddress), (u16, u64)>;

// ---------------------------------------------------------------------------
// Tunnel table
// ---------------------------------------------------------------------------

/// `DashMap::new`: a map with no entries.
#[verifier::external_body]
pub(crate) fn tunnels_new() -> (r: TunnelMap)
    ensures
        tunnel_table(r).dom().is_empty(),
{
    DashMap::new()
}

/// `DashMap::get`, with the entry's value cloned out of the guard.
#[verifier::external_body]
pub(crate) fn tunnels_get(m: &TunnelMap, key: &str) -> (r: Option<Tunnel>)
    ensures
        r is Some <==> tunnel_table(*m).contains_key(key@),
        r matches Some(t) ==> t@ == tunnel_table(*m)[key@],
{
    match m.get(key) {
        Some(entry) => Some(entry.value().clone()),
        None => None,
    }
}

/// `DashMap::insert`: the key now maps to the value, whatever it mapped to before.
#[verifier::external_body]
pub(crate) fn tunnels_insert(m: &mut TunnelMap, key: String, value: Tunnel)
    ensures
        tunnel_table(*final(m)) == tunnel_table(*old(m)).insert(key@, value@),
{
    m.insert(key, value);
}

/// `DashMap::remove`: the key no longer has an entry.
#[verifier::external_body]
pub(crate) fn tunnels_remove(m: &mut TunnelMap, key: &str)
    ensures
        tunnel_table(*final(m)) == tunnel_table(*old(m)).remove(key@),
{
    m.remove(key);
}

/// `DashMap::len`: the number of entries.
#[verifier::external_body]
pub(crate) fn tunnels_len(m: &TunnelMap) -> (r: usize)
    ensures
        r == tunnel_table(*m).len(),
{
    m.len()
}

// ---------------------------------------------------------------------------
// Inverse table
// ---------------------------------------------------------------------------

/// `DashMap::new`: a map with no entries.
#[verifier::external_body]
pub(crate) fn inverse_new() -> (r: InverseMap)
    ensures
        inverse_table(r).dom().is_empty(),
{
    DashMap::new()
}

/// `DashMap::insert`: the key now maps to the value.
#[verifier::external_body]
pub(crate) fn inverse_insert(m: &mut InverseMap, key: String, value: String)
    ensures
        inverse_table(*final(m)) == inverse_table(*old(m)).insert(key@, value@),
{
    m.insert(key, value);
}

/// `DashMap::remove`: the key no longer has an entry.
#[verifier::external_body]
pub(crate) fn inverse_remove(m: &mut InverseMap, key: &str)
    ensures
        inverse_table(*final(m)) == inverse_table(*old(m)).remove(key@),
{
    m.remove(key);
}

// ---------------------------------------------------------------------------
// DCID table
// ---------------------------------------------------------------------------

/// `DashMap::new`: a map with no entries.
#[verifier::external_body]
pub(crate) fn dcids_new() -> (r: DcidMap)
    ensures
        dcid_table(r).dom().is_empty(),
{
    DashMap::new()
}

/// `DashMap::get`, with the entry's value cloned out of the guard.
#[verifier::external_body]
pub(crate) fn dcids_get(m: &DcidMap, key: &str) -> (r: Option<(String, u64)>)
    ensures
        r is Some <==> dcid_table(*m).contains_key(key@),
        r matches Some(v) ==> v@ == dcid_table(*m)[key@],
{
    match m.get(key) {
        Some(entry) => Some(entry.value().clone()),
        None => None,
    }
}

/// `DashMap::insert`: the key now maps to the value.
#[verifier::external_body]
pub(crate) fn dcids_insert(m: &mut DcidMap, key: String, value: (String, u64))
    ensures
        dcid_table(*final(m)) == dcid_table(*old(m)).insert(key@, value@),
{
    m.insert(key, value);
}

/// `DashMap::retain`, keeping the entries last used within `max_idle` of `now`.
#[verifier::external_body]
pub(crate) fn dcids_retain_fresh(m: &mut DcidMap, now: u64, max_idle: u64)
    ensures
        dcid_table(*final(m)) == fresh_entries(dcid_table(*old(m)), now, max_idle),
{
    m.retain(|_, value| is_fresh(value.1, now, max_idle));
}

/// `DashMap::retain`, keeping the entries that point at another tunnel than `key`.
#[verifier::external_body]
pub(crate) fn dcids_retain_other_tunnels(m: &mut DcidMap, key: &str)
    ensures
        dcid_table(*final(m)) == other_tunnel_entries(dcid_table(*old(m)), key@),
{
    m.retain(|_, value| keeps_other_tunnel(&value.0, key));
}

// ---------------------------------------------------------------------------
// UDP return paths
// ---------------------------------------------------------------------------

/// `DashMap::new`: a map with no entries.
#[verifier::external_body]
pub(crate) fn udp_callers_new() -> (r: UdpCallerMap)
    ensures
        udp_caller_table(r).dom().is_empty(),
{
    DashMap::new()
}

/// `DashMap::get`, with the entry's value copied out of the guard.
#[verifier::external_body]
pub(crate) fn udp_callers_get(
    m: &UdpCallerMap,
    key: &(String, u16, u16),
) -> (r: Option<(SocketAddress, u64)>)
    ensures
        r is Some <==> udp_caller_table(*m).contains_key(key@),
        r matches Some(v) ==> v == udp_caller_table(*m)[key@],
{
    match m.get(key) {
        Some(entry) => Some(*entry.value()),
        None => None,
    }
}

/// `DashMap::insert`: the key now maps to the value.
#[verifier::external_body]
pub(crate) fn udp_callers_insert(
    m: &mut UdpCallerMap,
    key: (String, u16, u16),
    value: (SocketAddress, u64),
)
    ensures
        udp_caller_table(*final(m)) == udp_caller_table(*old(m)).insert(key@, value),
{
    m.insert(key, value);
}

/// `DashMap::retain`, keeping the entries last used within `max_idle` of `now`.
#[verifier::external_body]
pub(crate) fn udp_callers_retain_fresh(
    m: &mut UdpCallerMap,
    now: u64,
    max_idle: u64,
)
    ensures
        udp_caller_table(*final(m)) == fresh_entries(udp_caller_table(*old(m)), now, max_idle),
{
    m.retain(|_, value| is_fresh(value.1, now, max_idle));
}

/// `DashMap::retain`, keeping the entries keyed by another tunnel than `key`.
#[verifier::external_body]
pub(crate) fn udp_callers_retain_other_tunnels(
    m: &mut UdpCallerMap,
    key: &str,
)
    ensures
        udp_caller_table(*final(m)) == other_tunnel_udp_keys(udp_caller_table(*old(m)), key@),
{
    m.retain(|entry_key, _| keeps_other_tunnel(&entry_key.0, key));
}

// ---------------------------------------------------------------------------
// Caller IP index
// ---------------------------------------------------------------------------

/// `DashMap::new`: a map with no entries.
#[verifier::external_body]
pub(crate) fn callers_new() -> (r: CallerIndexMap)
    ensures
        caller_tunnel_table(r).dom().is_empty(),
{
    DashMap::new()
}

/// `DashMap::get`, with the entry's list cloned out of the guard.
#[verifier::external_body]
pub(crate) fn callers_get(m: &CallerIndexMap, ip: IpAddress) -> (r: Option<
    Vec<CallerTunnel>,
>)
    ensures
        r is Some <==> caller_tunnel_table(*m).contains_key(ip),
        r matches Some(v) ==> recs(v@) == caller_tunnel_table(*m)[ip],
{
    match m.get(&ip) {
        Some(entry) => Some(entry.value().clone()),
        None => None,
    }
}

/// `DashMap::insert`: the IP now maps to the list.
#[verifier::external_body]
pub(crate) fn callers_insert(
    m: &mut CallerIndexMap,
    ip: IpAddress,
    value: Vec<CallerTunnel>,
)
    ensures
        caller_tunnel_table(*final(m)) == caller_tunnel_table(*old(m)).insert(ip, recs(value@)),
{
    m.insert(ip, value);
}

/// `DashMap::remove`: the IP no longer has an entry.
#[verifier::external_body]
pub(crate) fn callers_remove(m: &mut CallerIndexMap, ip: IpAddress)
    ensures
        caller_tunnel_table(*final(m)) == caller_tunnel_table(*old(m)).remove(ip),
{
    m.remove(&ip);
}

/// `DashMap::retain`, pruning each list to its entries last used within
/// `max_idle` of `now` and dropping the IPs whose list becomes empty.
#[verifier::external_body]
pub(crate) fn callers_retain_fresh(
    m: &mut CallerIndexMap,
    now: u64,
    max_idle: u64,
)
    ensures
        caller_tunnel_table(*final(m)) == fresh_caller_index(
            caller_tunnel_table(*old(m)),
            now,
            max_idle,
        ),
{
    m.retain(|_, mappings| prune_stale_mappings(mappings, now, max_idle));
}

/// `DashMap::retain`, pruning each list of its entries for tunnel `key` and
/// dropping the IPs whose list becomes empty.
#[verifier::external_body]
pub(crate) fn callers_retain_other_tunnels(m: &mut CallerIndexMap, key: &str)
    ensures
        caller_tunnel_table(*final(m)) == other_tunnel_caller_index(
            caller_tunnel_table(*old(m)),
            key@,
        ),
{
    m.retain(|_, mappings| prune_other_tunnel(mappings, key));
}

// ---------------------------------------------------------------------------
// Caller sessions
// ---------------------------------------------------------------------------

/// `DashMap::new`: a map with no entries.
#[verifier::external_body]
pub(crate) fn sessions_new() -> (r: SessionMap)
    ensures
        caller_session_table(r).dom().is_empty(),
{
    DashMap::new()
}

/// `DashMap::get`, with the entry's value copied out of the guard.
#[verifier::external_body]
pub(crate) fn sessions_get(
    m: &SessionMap,
    key: &(String, u16, SocketAddress),
) -> (r: Option<(u16, u64)>)
    ensures
        r is Some <==> caller_session_table(*m).contains_key(key@),
        r matches Some(v) ==> v == caller_session_table(*m)[key@],
{
    match m.get(key) {
        Some(entry) => Some(*entry.value()),
        None => None,
    }
}

/// `DashMap::insert`: the key now maps to the value.
#[verifier::external_body]
pub(crate) fn sessions_insert(
    m: &mut SessionMap,
    key: (String, u16, SocketAddress),
    value: (u16, u64),
)
    ensures
        caller_session_table(*final(m)) == caller_session_table(*old(m)).insert(key@, value),
{
    m.insert(key, value);
}

/// `DashMap::retain`, keeping the entries last used within `max_idle` of `now`.
#[verifier::external_body]
pub(crate) fn sessions_retain_fresh(
    m: &mut SessionMap,
    now: u64,
    max_idle: u64,
)
    ensures
        caller_session_table(*final(m)) == fresh_entries(caller_session_table(*old(m)), now, max_idle),
{
    m.retain(|_, value| is_fresh(value.1, now, max_idle));
}

/// `DashMap::retain`, keeping the entries keyed by another tunnel than `key`.
#[verifier::external_body]
pub(crate) fn sessions_retain_other_tunnels(
    m: &mut SessionMap,
    key: &str,
)
    ensures
        caller_session_table(*final(m)) == other_tunnel_sessions(caller_session_table(*old(m)), key@),
{
    m.retain(|entry_key, _| keeps_other_tunnel(&entry_key.0, key));
}

} // verus!

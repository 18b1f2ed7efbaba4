//! Verified core of the wormhole relay: QUIC and TLS header inspection, the
//! tunnel routing table with its UDP session bookkeeping, and the relay's
//! connection-admission decisions.

pub mod addr;
pub mod config;
pub mod ingress;
pub mod ingress_udp;
pub mod maps;
pub mod relay;
pub mod router;
pub mod router_laws;
pub mod routing_model;
pub mod text;
pub mod tls;

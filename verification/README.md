# wormhole_relay

The relay side of Wormhole, a QUIC-based L4 tunnel: public TCP and UDP
ingress is pushed through an outbound mTLS QUIC tunnel to a client that serves
local loopback services.

`src/` is the verified core, checked with Verus:

- `ingress_udp` — the QUIC destination connection ID of a datagram, rendered
  as hex, and the routing of a received datagram.
- `ingress` — the server name of a TLS ClientHello (through `tls_parser`) and
  the reader that waits for a whole ClientHello record.
- `router`, `routing_model`, `router_laws` — the routing table: tunnels by key,
  DCID and caller-address indexes, UDP session ids and return paths, idle
  collection; its abstract model, and the properties proved of it.
- `maps` — the `dashmap::DashMap`s the routing table keeps its state in.
- `relay` — the key a connecting client is registered under (its certificate
  name through `x509_parser`, or its server name), the return of UDP replies,
  and the QUIC transport limits.
- `tls`, `config` — the relay certificate (`rcgen`), the CA certificate read
  from PEM (`rustls_pemfile`), ALPN, and the security mode.
- `addr`, `text` — caller addresses and small string facilities.

`app/` is the binary: sockets, the QUIC endpoint (`quinn`, `rustls`), the
async loops, and file and environment access.

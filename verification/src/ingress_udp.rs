//! UDP ingress: recognising the QUIC destination connection ID of a datagram.

use vstd::prelude::*;

pub use crate::text::hex;

use crate::addr::SocketAddress;
use crate::router::{forward_view, Router, UdpForward};
use crate::text::hex_string;

verus! {

/// The destination connection ID carried by a QUIC packet, as the relay reads it.
///
/// Long header (high bit of byte 0 set): the DCID length is byte 5 and the DCID
/// follows from byte 6; a packet shorter than 7 bytes, a zero length or a DCID
/// running past the end gives no DCID.  Short header: an 8-byte DCID at bytes
/// 1..9, none when the packet is shorter than 9 bytes.
pub open spec fn quic_dcid(buf: Seq<u8>) -> Option<Seq<u8>> {
    if buf.len() == 0 {
        None
    } else if buf[0] >= 0x80 {
        if buf.len() < 7 {
            None
        } else if buf[5] == 0 || buf.len() < 6 + buf[5] {
            None
        } else {
            Some(buf.subrange(6, 6 + buf[5]))
        }
    } else if buf.len() < 9 {
        None
    } else {
        Some(buf.subrange(1, 9))
    }
}

/// The destination connection ID of a long-header packet is all of the bytes
/// its length byte announces, right after it: for a packet whose byte 0 has
/// the high bit set, whose byte 5 is `L > 0` and that holds at least `6 + L`
/// bytes, the ID has `L` bytes, its byte `i` is byte `6 + i` of the packet,
/// and its rendering has `2 * L` characters.  A short-header packet of at
/// least 9 bytes has the 8 bytes after byte 0 as its ID.
pub proof fn law_dcid_is_what_the_header_announces(buf: Seq<u8>)
    ensures
        buf.len() >= 7 && buf[0] >= 0x80 && buf[5] > 0 && buf.len() >= 6 + buf[5] ==> ({
            &&& quic_dcid(buf) is Some
            &&& quic_dcid(buf)->Some_0.len() == buf[5]
            &&& forall|i: int| 0 <= i < buf[5] ==> #[trigger] quic_dcid(buf)->Some_0[i] == buf[6 + i]
            &&& hex_string(quic_dcid(buf)->Some_0).len() == 2 * buf[5]
        }),
        buf.len() >= 9 && buf[0] < 0x80 ==> ({
            &&& quic_dcid(buf) is Some
            &&& quic_dcid(buf)->Some_0.len() == 8
            &&& forall|i: int| 0 <= i < 8 ==> #[trigger] quic_dcid(buf)->Some_0[i] == buf[1 + i]
            &&& hex_string(quic_dcid(buf)->Some_0).len() == 16
        }),
{
    if let Some(d) = quic_dcid(buf) {
        crate::text::lemma_hex_string_len(d);
    }
}

/// Extract the QUIC Destination Connection ID from the first bytes of a raw
/// UDP datagram containing a QUIC packet, rendered as lowercase hex.
pub fn peek_quic_dcid(buf: &[u8]) -> (r: Option<String>)
    ensures
        match quic_dcid(buf@) {
            None => r is None,
            Some(dcid) => r matches Some(s) && s@ == hex_string(dcid),
        },
{
    if buf.len() == 0 {
        return None;
    }
    let first = buf[0];
    let long_header = (first & 0x80) != 0;
    assert(long_header == (first >= 0x80)) by (bit_vector)
        requires
            long_header == ((first & 0x80) != 0),
    ;
    if long_header {
        if buf.len() < 7 {
            return None;
        }
        let dcid_len = buf[5] as usize;
        if dcid_len == 0 || buf.len() < 6 + dcid_len {
            return None;
        }
        let dcid = vstd::slice::slice_subrange(buf, 6, 6 + dcid_len);
        Some(hex(dcid))
    } else {
        if buf.len() < 9 {
            return None;
        }
        let dcid = vstd::slice::slice_subrange(buf, 1, 9);
        Some(hex(dcid))
    }
}

/// The largest datagram the UDP ingress receives.
pub const MAX_DATAGRAM: usize = 1500;

/// Handle one datagram received on the public UDP port: a datagram without a
/// recognisable DCID is dropped untouched; any other is routed by its DCID.
pub fn route_datagram(
    router: &mut Router,
    ingress_port: u16,
    datagram: &[u8],
    caller_addr: SocketAddress,
    now: u64,
) -> (r: Option<UdpForward>)
    requires
        old(router).wf(),
    ensures
        final(router).wf(),
        match quic_dcid(datagram@) {
            None => r is None && final(router)@ == old(router)@,
            Some(dcid) => (final(router)@, forward_view(r)) == old(router)@.route_udp(
                hex_string(dcid),
                ingress_port,
                datagram@,
                caller_addr,
                now,
            ),
        },
{
    let dcid = match peek_quic_dcid(datagram) {
        Some(id) => id,
        None => return None,
    };
    router.route_udp_ingress(dcid.as_str(), ingress_port, datagram, caller_addr, now)
}

} // verus!

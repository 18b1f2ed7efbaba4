//! The relay's decisions about client tunnels: which key a connecting client
//! is registered under, and where a datagram coming back out of a tunnel goes.

use vstd::prelude::*;
use x509_parser::prelude::{FromDer, GeneralName, ParsedExtension, X509Certificate};

use crate::addr::SocketAddress;
use crate::router::{split_udp_frame, Registration, Router, RouterError};
use crate::routing_model::parse_udp_frame;
use crate::text::opt_chars;

verus! {

/// A socket handed over by the Tachyon host instead of one the relay binds.
pub struct TachyonSocket;

/// Where the relay's QUIC endpoint gets its socket from.
pub enum SocketSource {
    Bind(SocketAddress),
    Tachyon(TachyonSocket),
}

// ---------------------------------------------------------------------------
// Client certificate names
// ---------------------------------------------------------------------------

/// The names a certificate carries, as far as the relay reads them: for each
/// extension in order, the general names of a subject-alternative-name
/// extension (a DNS name as its text, any other kind of name as none) or none
/// for another extension; and the subject's common names in order (none for
/// one that is not a string).
pub struct CertificateNames {
    pub san_extensions: Vec<Option<Vec<Option<String>>>>,
    pub common_names: Vec<Option<String>>,
}

pub struct CertificateNamesView {
    pub san_extensions: Seq<Option<Seq<Option<Seq<char>>>>>,
    pub common_names: Seq<Option<Seq<char>>>,
}

pub open spec fn names_view(names: Seq<Option<String>>) -> Seq<Option<Seq<char>>> {
    names.map_values(|n: Option<String>| opt_chars(n))
}

pub open spec fn san_list_view(ext: Option<Vec<Option<String>>>) -> Option<Seq<Option<Seq<char>>>> {
    match ext {
        Some(names) => Some(names_view(names@)),
        None => None,
    }
}

impl View for CertificateNames {
    type V = CertificateNamesView;

    open spec fn view(&self) -> CertificateNamesView {
        CertificateNamesView {
            san_extensions: self.san_extensions@.map_values(
                |e: Option<Vec<Option<String>>>| san_list_view(e),
            ),
            common_names: names_view(self.common_names@),
        }
    }
}

/// What `x509_parser` reads of the names in a DER certificate, or none when
/// `X509Certificate::from_der` fails.
pub uninterp spec fn x509_names(der: Seq<u8>) -> Option<CertificateNamesView>;

/// `X509Certificate::from_der`, with the certificate's extensions and subject
/// common names read out (`ParsedExtension::SubjectAlternativeName`,
/// `GeneralName::DNSName`, `X509Name::iter_common_name`,
/// `AttributeTypeAndValue::as_str`).  The result is named `x509_names`.
#[verifier::external_body]
fn parse_certificate_names(der: &[u8]) -> (r: Option<CertificateNames>)
    ensures
        match r {
            Some(names) => x509_names(der@) == Some(names@),
            None => x509_names(der@) is None,
        },
{
    let (_, cert) = X509Certificate::from_der(der).ok()?;
    let san_extensions = cert.extensions().iter().map(|ext| match ext.parsed_extension() {
        ParsedExtension::SubjectAlternativeName(san) => Some(san.general_names.iter().map(
            |name| match name { GeneralName::DNSName(dns) => Some(dns.to_string()), _ => None },
        ).collect()),
        _ => None,
    }).collect();
    let common_names = cert.subject().iter_common_name().map(
        |attr| attr.as_str().ok().map(|s| s.to_owned()),
    ).collect();
    Some(CertificateNames { san_extensions, common_names })
}

/// The first present name of `names` from index `i` on.
pub open spec fn first_name(names: Seq<Option<Seq<char>>>, i: int) -> Option<Seq<char>>
    decreases names.len() - i,
{
    if i < 0 || i >= names.len() {
        None
    } else if names[i] is Some {
        names[i]
    } else {
        first_name(names, i + 1)
    }
}

/// The first DNS name of the subject-alternative-name extensions from index
/// `i` on.
pub open spec fn first_dns_san(exts: Seq<Option<Seq<Option<Seq<char>>>>>, i: int) -> Option<
    Seq<char>,
>
    decreases exts.len() - i,
{
    if i < 0 || i >= exts.len() {
        None
    } else {
        match exts[i] {
            Some(names) => match first_name(names, 0) {
                Some(dns) => Some(dns),
                None => first_dns_san(exts, i + 1),
            },
            None => first_dns_san(exts, i + 1),
        }
    }
}

/// The name a certificate's names identify a tunnel by: the first DNS
/// subject alternative name, else the first common name that is a string.
pub open spec fn names_tunnel_name(names: CertificateNamesView) -> Option<Seq<char>> {
    match first_dns_san(names.san_extensions, 0) {
        Some(dns) => Some(dns),
        None => first_name(names.common_names, 0),
    }
}

/// The name a client certificate identifies its tunnel by, none when it does
/// not parse.
pub open spec fn certificate_tunnel_name(der: Seq<u8>) -> Option<Seq<char>> {
    match x509_names(der) {
        None => None,
        Some(names) => names_tunnel_name(names),
    }
}

fn first_present(names: &Vec<Option<String>>) -> (r: Option<String>)
    ensures
        opt_chars(r) == first_name(names_view(names@), 0),
{
    let ghost nv = names_view(names@);
    let mut i: usize = 0;
    while i < names.len()
        invariant
            i <= names@.len(),
            nv == names_view(names@),
            first_name(nv, 0) == first_name(nv, i as int),
        decreases names@.len() - i,
    {
        assert(nv[i as int] == opt_chars(names@[i as int]));
        match &names[i] {
            Some(name) => {
                return Some(name.clone());
            },
            None => {},
        }
        i = i + 1;
    }
    None
}

/// The tunnel name of a parsed certificate: its first DNS subject
/// alternative name, else its first common name that is a string.
pub fn certificate_name(names: &CertificateNames) -> (r: Option<String>)
    ensures
        opt_chars(r) == names_tunnel_name(names@),
{
    let ghost exts = names@.san_extensions;
    let mut i: usize = 0;
    while i < names.san_extensions.len()
        invariant
            i <= names.san_extensions@.len(),
            exts == names@.san_extensions,
            first_dns_san(exts, 0) == first_dns_san(exts, i as int),
        decreases names.san_extensions@.len() - i,
    {
        assert(exts[i as int] == san_list_view(names.san_extensions@[i as int]));
        match &names.san_extensions[i] {
            Some(list) => {
                match first_present(list) {
                    Some(dns) => {
                        return Some(dns);
                    },
                    None => {},
                }
            },
            None => {},
        }
        i = i + 1;
    }
    first_present(&names.common_names)
}

/// Extract the first DNS Subject Alternative Name from a DER certificate,
/// falling back to the first Common Name.
pub fn extract_san_from_der(cert_der: &[u8]) -> (r: Option<String>)
    ensures
        opt_chars(r) == certificate_tunnel_name(cert_der@),
{
    match parse_certificate_names(cert_der) {
        Some(names) => certificate_name(&names),
        None => None,
    }
}

// ---------------------------------------------------------------------------
// Admission of client tunnels
// ---------------------------------------------------------------------------

/// Why a client connection is turned away.
#[derive(Clone, Copy, PartialEq, Eq, Debug, Structural)]
pub enum Rejection {
    /// mTLS is enforced and the client certificate names no tunnel.
    MissingClientSan,
    /// The tunnel key is held and the connection may not take it over.
    DuplicateKey,
}

/// The outcome of a client connection's admission.
pub enum Admission {
    Accepted(Registration),
    Rejected(Rejection),
}

impl Rejection {
    /// The application error code and reason the connection is closed with.
    pub fn close_code(&self) -> (r: u32)
        ensures
            r == 1,
    {
        1
    }

    pub fn close_reason(&self) -> (r: &'static str)
        ensures
            r@ == match self {
                Rejection::MissingClientSan => "missing client certificate SAN"@,
                Rejection::DuplicateKey => "duplicate tunnel key in unsecure mode"@,
            },
    {
        match self {
            Rejection::MissingClientSan => "missing client certificate SAN",
            Rejection::DuplicateKey => "duplicate tunnel key in unsecure mode",
        }
    }
}

/// The application error code a taken-over connection is closed with.
pub const TAKEOVER_CLOSE_CODE: u32 = 0;

/// The reason a taken-over connection is closed with.
pub fn takeover_close_reason() -> (r: &'static str)
    ensures
        r@ == "takeover"@,
{
    "takeover"
}

/// The key a client connection asks to be registered under: with mTLS the name
/// its certificate carries (none when it carries none), otherwise the server
/// name it asked for, or its connection's stable id.
pub open spec fn requested_key(
    mtls: bool,
    client_name: Option<Seq<char>>,
    server_name: Option<Seq<char>>,
    stable_id: Seq<char>,
) -> Option<Seq<char>> {
    if mtls {
        client_name
    } else {
        match server_name {
            Some(name) => Some(name),
            None => Some(stable_id),
        }
    }
}

/// Admit a client connection: find its key and register it.  An mTLS
/// connection, authenticated by its certificate, may take an existing key
/// over; any other connection is refused a key that is held.
pub fn admit_connection(
    router: &mut Router,
    mtls: bool,
    client_name: Option<String>,
    server_name: Option<String>,
    stable_id: String,
) -> (r: Admission)
    requires
        old(router).wf(),
    ensures
        final(router).wf(),
        match requested_key(mtls, opt_chars(client_name), opt_chars(server_name), stable_id@) {
            None => r == Admission::Rejected(Rejection::MissingClientSan) && final(router)@ == old(
                router,
            )@,
            Some(key) => if old(router)@.tunnels.contains_key(key) && !mtls {
                r == Admission::Rejected(Rejection::DuplicateKey) && final(router)@ == old(router)@
            } else {
                r matches Admission::Accepted(reg) && reg.key@ == key && final(router)@ == old(
                    router,
                )@.registered(stable_id@, key)
            },
        },
{
    let key = if mtls {
        match client_name {
            Some(name) => name,
            None => return Admission::Rejected(Rejection::MissingClientSan),
        }
    } else {
        match server_name {
            Some(name) => name,
            None => stable_id.clone(),
        }
    };
    match router.register(stable_id, Some(key), mtls) {
        Ok(reg) => Admission::Accepted(reg),
        Err(RouterError::AlreadyRegistered) => Admission::Rejected(Rejection::DuplicateKey),
    }
}

// ---------------------------------------------------------------------------
// Egress
// ---------------------------------------------------------------------------

/// Where a datagram coming out of the tunnel of `tunnel_key` goes: its header
/// names the public port and session, whose return path gives the caller; the
/// caller is sent the datagram without its header.  A datagram without a
/// header, or for a session with no return path, goes nowhere.
pub fn egress_target<'a>(router: &mut Router, tunnel_key: &str, data: &'a [u8], now: u64) -> (r:
    Option<(SocketAddress, &'a [u8])>)
    requires
        old(router).wf(),
    ensures
        final(router).wf(),
        match parse_udp_frame(data@) {
            None => r is None && final(router)@ == old(router)@,
            Some((port, sid, payload)) => {
                let (after, caller) = old(router)@.return_path(tunnel_key@, port, sid, now);
                &&& final(router)@ == after
                &&& match caller {
                    None => r is None,
                    Some(c) => r matches Some((to, bytes)) && to == c && bytes@ == payload,
                }
            },
        },
{
    let (port, session_id, payload) = match split_udp_frame(data) {
        Some(parts) => parts,
        None => return None,
    };
    match router.udp_return_addr(tunnel_key, port, session_id, now) {
        Some(caller) => Some((caller, payload)),
        None => None,
    }
}

// ---------------------------------------------------------------------------
// QUIC transport
// ---------------------------------------------------------------------------

/// The QUIC transport limits of the relay's endpoint.
#[derive(Clone, Copy, PartialEq, Eq, Debug, Structural)]
pub struct TransportSettings {
    pub max_idle_timeout_secs: u64,
    pub keep_alive_interval_secs: u64,
    pub max_concurrent_bidi_streams: u32,
    pub max_concurrent_uni_streams: u32,
    pub stream_receive_window: u64,
    pub receive_window: u64,
    pub datagram_receive_buffer_size: usize,
    pub datagram_send_buffer_size: usize,
}

/// Idle connections time out after 30 s with keep-alives every 15 s; at most
/// 100 concurrent bidirectional streams and no unidirectional ones; 1 MiB of
/// receive window per stream and 8 MiB per connection; 64 KiB of datagram
/// receive buffer and 128 KiB of datagram send buffer.
pub fn relay_transport_settings() -> (r: TransportSettings)
    ensures
        r == (TransportSettings {
            max_idle_timeout_secs: 30,
            keep_alive_interval_secs: 15,
            max_concurrent_bidi_streams: 100,
            max_concurrent_uni_streams: 0,
            stream_receive_window: 0x10_0000,
            receive_window: 0x80_0000,
            datagram_receive_buffer_size: 0x1_0000,
            datagram_send_buffer_size: 0x2_0000,
        }),
{
    TransportSettings {
        max_idle_timeout_secs: 30,
        keep_alive_interval_secs: 15,
        max_concurrent_bidi_streams: 100,
        max_concurrent_uni_streams: 0,
        stream_receive_window: 0x10_0000,
        receive_window: 0x80_0000,
        datagram_receive_buffer_size: 0x1_0000,
        datagram_send_buffer_size: 0x2_0000,
    }
}

} // verus!

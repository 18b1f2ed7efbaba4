//! TCP ingress: reading a TLS ClientHello and finding the server name that
//! selects the client tunnel.

use tls_parser::{TlsExtension, TlsMessage, TlsMessageHandshake};
use vstd::prelude::*;
use vstd::utf8::{decode_utf8, valid_utf8};

verus! {

/// Bytes read per attempt while waiting for the ClientHello.
pub const PEEK_BUF: usize = 1024;

/// The largest ClientHello prefix the ingress waits for.
pub const MAX_CLIENT_HELLO: usize = 16 * 1024;

/// A TLS plaintext message, as far as the ingress reads it: a ClientHello with
/// its raw extensions block, or anything else.
pub enum TlsMessageKind {
    ClientHello(Option<Vec<u8>>),
    Other,
}

/// The outcome of parsing one TLS plaintext record.
pub enum TlsRecord {
    /// The bytes end before the record does.
    Incomplete,
    /// The bytes are not a TLS plaintext record.
    Invalid,
    /// The record's messages, in order.
    Messages(Vec<TlsMessageKind>),
}

/// A TLS extension, as far as the ingress reads it: the host names of a
/// server-name extension, or anything else.
pub enum TlsExtensionKind {
    ServerName(Vec<Vec<u8>>),
    Other,
}

pub enum MessageView {
    ClientHello(Option<Seq<u8>>),
    Other,
}

pub enum RecordView {
    Incomplete,
    Invalid,
    Messages(Seq<MessageView>),
}

pub enum ExtensionView {
    ServerName(Seq<Seq<u8>>),
    Other,
}

impl View for TlsMessageKind {
    type V = MessageView;

    open spec fn view(&self) -> MessageView {
        match self {
            TlsMessageKind::ClientHello(Some(ext)) => MessageView::ClientHello(Some(ext@)),
            TlsMessageKind::ClientHello(None) => MessageView::ClientHello(None),
            TlsMessageKind::Other => MessageView::Other,
        }
    }
}

impl View for TlsRecord {
    type V = RecordView;

    open spec fn view(&self) -> RecordView {
        match self {
            TlsRecord::Incomplete => RecordView::Incomplete,
            TlsRecord::Invalid => RecordView::Invalid,
            TlsRecord::Messages(msgs) => RecordView::Messages(
                msgs@.map_values(|m: TlsMessageKind| m@),
            ),
        }
    }
}

impl View for TlsExtensionKind {
    type V = ExtensionView;

    open spec fn view(&self) -> ExtensionView {
        match self {
            TlsExtensionKind::ServerName(names) => ExtensionView::ServerName(
                names@.map_values(|n: Vec<u8>| n@),
            ),
            TlsExtensionKind::Other => ExtensionView::Other,
        }
    }
}

/// What `tls_parser::parse_tls_plaintext` makes of `buf`.
pub uninterp spec fn tls_plaintext(buf: Seq<u8>) -> RecordView;

/// What `tls_parser::parse_tls_extensions` makes of an extensions block: the
/// extensions, or none when it fails.
pub uninterp spec fn tls_extensions(block: Seq<u8>) -> Option<Seq<ExtensionView>>;

/// The characters `String::from_utf8_lossy` makes of `bytes`.
pub uninterp spec fn utf8_lossy(bytes: Seq<u8>) -> Seq<char>;

/// `tls_parser::parse_tls_plaintext`: parses one TLS plaintext record at the
/// start of `buf`.  Its result is named `tls_plaintext`; nothing more is
/// stated of the TLS grammar.
#[verifier::external_body]
fn parse_tls_record(buf: &[u8]) -> (r: TlsRecord)
    ensures
        r@ == tls_plaintext(buf@),
{
    match tls_parser::parse_tls_plaintext(buf) {
        Ok((_, record)) => TlsRecord::Messages(record.msg.iter().map(|m| match m {
            TlsMessage::Handshake(TlsMessageHandshake::ClientHello(hello)) =>
                TlsMessageKind::ClientHello(hello.ext.map(|e| e.to_vec())),
            _ => TlsMessageKind::Other,
        }).collect()),
        Err(tls_parser::nom::Err::Incomplete(_)) => TlsRecord::Incomplete,
        Err(_) => TlsRecord::Invalid,
    }
}

/// `tls_parser::parse_tls_extensions`: parses a ClientHello extensions block.
/// Its result is named `tls_extensions`.
#[verifier::external_body]
fn parse_tls_extension_block(block: &[u8]) -> (r: Option<Vec<TlsExtensionKind>>)
    ensures
        match r {
            Some(exts) => tls_extensions(block@) == Some(exts@.map_values(|e: TlsExtensionKind| e@)),
            None => tls_extensions(block@) is None,
        },
{
    match tls_parser::parse_tls_extensions(block) {
        Ok((_, exts)) => Some(exts.iter().map(|e| match e {
            TlsExtension::SNI(list) => TlsExtensionKind::ServerName(
                list.iter().map(|(_, name)| name.to_vec()).collect(),
            ),
            _ => TlsExtensionKind::Other,
        }).collect()),
        Err(_) => None,
    }
}

/// `String::from_utf8_lossy`, made owned: valid UTF-8 decodes as itself;
/// the replacement of invalid sequences is named `utf8_lossy` and not stated.
#[verifier::external_body]
fn lossy_string(bytes: &[u8]) -> (r: String)
    ensures
        r@ == utf8_lossy(bytes@),
        valid_utf8(bytes@) ==> r@ == decode_utf8(bytes@),
{
    String::from_utf8_lossy(bytes).into_owned()
}

/// The first host name of the first server-name extension, from index `i` on,
/// that lists any.
pub open spec fn first_server_name(exts: Seq<ExtensionView>, i: int) -> Option<Seq<u8>>
    decreases exts.len() - i,
{
    if i < 0 || i >= exts.len() {
        None
    } else {
        match exts[i] {
            ExtensionView::ServerName(names) => if names.len() > 0 {
                Some(names[0])
            } else {
                first_server_name(exts, i + 1)
            },
            ExtensionView::Other => first_server_name(exts, i + 1),
        }
    }
}

/// The extensions block of a record whose first message is a ClientHello
/// that carries one.
pub open spec fn hello_extensions(record: RecordView) -> Option<Seq<u8>> {
    match record {
        RecordView::Messages(msgs) => if msgs.len() > 0 {
            match msgs[0] {
                MessageView::ClientHello(Some(block)) => Some(block),
                _ => None,
            }
        } else {
            None
        },
        _ => None,
    }
}

/// The server name a TLS record announces: the record's first message must be
/// a ClientHello with an extensions block that parses, and the name is the
/// first host name of a server-name extension in it.
pub open spec fn sni_bytes(buf: Seq<u8>) -> Option<Seq<u8>> {
    match hello_extensions(tls_plaintext(buf)) {
        Some(block) => match tls_extensions(block) {
            Some(exts) => first_server_name(exts, 0),
            None => None,
        },
        None => None,
    }
}

/// The extensions block of a parsed record's ClientHello: the record's first
/// message must be a ClientHello that carries extensions.
pub fn client_hello_extensions(record: &TlsRecord) -> (r: Option<&Vec<u8>>)
    ensures
        match hello_extensions(record@) {
            None => r is None,
            Some(block) => r matches Some(b) && b@ == block,
        },
{
    let msgs = match record {
        TlsRecord::Messages(msgs) => msgs,
        _ => return None,
    };
    if msgs.len() == 0 {
        return None;
    }
    assert(msgs@.map_values(|m: TlsMessageKind| m@)[0] == msgs@[0]@);
    match &msgs[0] {
        TlsMessageKind::ClientHello(Some(block)) => Some(block),
        _ => None,
    }
}

/// The first host name of the first server-name extension, among parsed
/// extensions, that lists any.
pub fn server_name_bytes(exts: &Vec<TlsExtensionKind>) -> (r: Option<&Vec<u8>>)
    ensures
        match first_server_name(exts@.map_values(|e: TlsExtensionKind| e@), 0) {
            None => r is None,
            Some(name) => r matches Some(n) && n@ == name,
        },
{
    let ghost ev = exts@.map_values(|e: TlsExtensionKind| e@);
    let mut i: usize = 0;
    while i < exts.len()
        invariant
            i <= exts@.len(),
            ev == exts@.map_values(|e: TlsExtensionKind| e@),
            first_server_name(ev, 0) == first_server_name(ev, i as int),
        decreases exts@.len() - i,
    {
        assert(ev[i as int] == exts@[i as int]@);
        match &exts[i] {
            TlsExtensionKind::ServerName(names) => {
                if names.len() > 0 {
                    assert(names@.map_values(|n: Vec<u8>| n@)[0] == names@[0]@);
                    return Some(&names[0]);
                }
            },
            TlsExtensionKind::Other => {},
        }
        i = i + 1;
    }
    None
}

/// The server name announced by the ClientHello at the start of `buf`.
pub fn peek_sni(buf: &[u8]) -> (r: Option<String>)
    ensures
        match sni_bytes(buf@) {
            None => r is None,
            Some(name) => r matches Some(s) && s@ == utf8_lossy(name),
        },
{
    let record = parse_tls_record(buf);
    let block = match client_hello_extensions(&record) {
        Some(block) => block,
        None => return None,
    };
    let exts = match parse_tls_extension_block(block.as_slice()) {
        Some(exts) => exts,
        None => return None,
    };
    match server_name_bytes(&exts) {
        Some(name) => Some(lossy_string(name.as_slice())),
        None => None,
    }
}

/// Whether `buf` holds the start of a TLS record that has not arrived whole.
pub fn client_hello_needs_more(buf: &[u8]) -> (r: bool)
    ensures
        r == (tls_plaintext(buf@) is Incomplete),
{
    match parse_tls_record(buf) {
        TlsRecord::Incomplete => true,
        _ => false,
    }
}

/// Where reading a ClientHello stands after a read.
#[derive(Clone, Copy, PartialEq, Eq, Debug, Structural)]
pub enum HelloProgress {
    /// The record is still incomplete: read more.
    NeedMore,
    /// The stream ended or the record is complete (or is not TLS at all): route
    /// what was read.
    Complete,
    /// The record is still incomplete and the buffer has reached
    /// `MAX_CLIENT_HELLO` bytes: give up on the connection.
    TooLarge,
}

/// The bytes read so far, and the verdict after a read of `chunk` (an empty
/// chunk is the end of the stream).
pub open spec fn hello_step(buf: Seq<u8>, chunk: Seq<u8>) -> (Seq<u8>, HelloProgress) {
    if chunk.len() == 0 {
        (buf, HelloProgress::Complete)
    } else {
        let grown = buf + chunk;
        if !(tls_plaintext(grown) is Incomplete) {
            (grown, HelloProgress::Complete)
        } else if grown.len() >= MAX_CLIENT_HELLO {
            (grown, HelloProgress::TooLarge)
        } else {
            (grown, HelloProgress::NeedMore)
        }
    }
}

/// Reading a ClientHello keeps every byte and stops as soon as the bytes read
/// hold a record that is not incomplete: after a non-empty read the buffer is
/// what was buffered before followed by the read, whatever was buffered
/// before (nothing included); the verdict is `Complete` exactly when that
/// buffer does not parse as an incomplete record, `TooLarge` when it does and
/// has reached `MAX_CLIENT_HELLO` bytes, and `NeedMore` otherwise.  An empty
/// read ends the stream: the buffer is kept and the verdict is `Complete`.
pub proof fn law_hello_reading_stops_at_a_whole_record(buf: Seq<u8>, chunk: Seq<u8>)
    ensures
        chunk.len() == 0 ==> hello_step(buf, chunk) == (buf, HelloProgress::Complete),
        chunk.len() > 0 ==> ({
            let (grown, verdict) = hello_step(buf, chunk);
            &&& grown.len() == buf.len() + chunk.len()
            &&& grown.subrange(0, buf.len() as int) == buf
            &&& grown.subrange(buf.len() as int, grown.len() as int) == chunk
            &&& (verdict == HelloProgress::Complete <==> !(tls_plaintext(grown) is Incomplete))
            &&& (verdict == HelloProgress::TooLarge <==> (tls_plaintext(grown) is Incomplete
                && grown.len() >= MAX_CLIENT_HELLO))
            &&& (verdict == HelloProgress::NeedMore <==> (tls_plaintext(grown) is Incomplete
                && grown.len() < MAX_CLIENT_HELLO))
        }),
{
    if chunk.len() > 0 {
        let grown = buf + chunk;
        assert(grown.subrange(0, buf.len() as int) =~= buf);
        assert(grown.subrange(buf.len() as int, grown.len() as int) =~= chunk);
    }
}

/// Accumulates the first bytes of an ingress connection until they hold a
/// whole TLS record.
pub struct ClientHelloReader {
    buf: Vec<u8>,
}

impl View for ClientHelloReader {
    type V = Seq<u8>;

    closed spec fn view(&self) -> Seq<u8> {
        self.buf@
    }
}

impl ClientHelloReader {
    pub fn new() -> (r: Self)
        ensures
            r@ == Seq::<u8>::empty(),
    {
        ClientHelloReader { buf: Vec::new() }
    }

    /// Take in the bytes of one read; an empty read is the end of the stream.
    pub fn on_read(&mut self, chunk: &[u8]) -> (r: HelloProgress)
        ensures
            (final(self)@, r) == hello_step(old(self)@, chunk@),
    {
        if chunk.len() == 0 {
            return HelloProgress::Complete;
        }
        let mut i: usize = 0;
        while i < chunk.len()
            invariant
                i <= chunk@.len(),
                self.buf@ == old(self)@ + chunk@.take(i as int),
            decreases chunk@.len() - i,
        {
            self.buf.push(chunk[i]);
            assert(chunk@.take(i + 1) =~= chunk@.take(i as int).push(chunk@[i as int]));
            i = i + 1;
        }
        assert(chunk@.take(chunk@.len() as int) =~= chunk@);
        if !client_hello_needs_more(self.buf.as_slice()) {
            return HelloProgress::Complete;
        }
        if self.buf.len() >= MAX_CLIENT_HELLO {
            return HelloProgress::TooLarge;
        }
        HelloProgress::NeedMore
    }

    /// The bytes read so far.
    pub fn into_buffer(self) -> (r: Vec<u8>)
        ensures
            r@ == self@,
    {
        self.buf
    }
}

/// The tunnel key an ingress connection is routed by: the server name of its
/// ClientHello, or else the peer's IP address text.
pub fn ingress_route_key(buf: &[u8], peer_ip: String) -> (r: String)
    ensures
        match sni_bytes(buf@) {
            Some(name) => r@ == utf8_lossy(name),
            None => r@ == peer_ip@,
        },
{
    match peek_sni(buf) {
        Some(sni) => sni,
        None => peer_ip,
    }
}

/// The two-byte header that opens a tunnel stream: the public port, big-endian.
pub fn ingress_port_header(port: u16) -> (r: [u8; 2])
    ensures
        r@ == seq![(port / 256) as u8, (port % 256) as u8],
{
    let r = [(port / 256) as u8, (port % 256) as u8];
    assert(r@ =~= seq![(port / 256) as u8, (port % 256) as u8]);
    r
}

} // verus!
